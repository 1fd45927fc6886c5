//! Rendering a snapshot of the flow table as a fixed-width text report:
//! decimal counters, dotted address text, padded columns, banner lines, and
//! the derivation of the report file path from a report name.
use vstd::prelude::*;
use vstd::string::StrSliceExecFns;
use vstd::string::StringExecFns;
use crate::flow_table::FlowRecord;
use crate::packet::{FlowKey, FlowKeyView, Protocol};

verus! {

/// Column widths of the report table, one per rendered field.
pub const W_IP: usize = 18;

pub const W_PORT: usize = 8;

pub const W_PROTO: usize = 6;

pub const W_BYTES: usize = 12;

pub const W_TIME: usize = 22;

/// The decimal digit character of a value below ten.
pub open spec fn dec_digit(d: int) -> char {
    if d == 0 {
        '0'
    } else if d == 1 {
        '1'
    } else if d == 2 {
        '2'
    } else if d == 3 {
        '3'
    } else if d == 4 {
        '4'
    } else if d == 5 {
        '5'
    } else if d == 6 {
        '6'
    } else if d == 7 {
        '7'
    } else if d == 8 {
        '8'
    } else {
        '9'
    }
}

/// The decimal text of a non-negative integer, most significant digit first.
pub open spec fn dec_rep(n: int) -> Seq<char>
    decreases n,
{
    if n < 10 {
        seq![dec_digit(n)]
    } else {
        dec_rep(n / 10).push(dec_digit(n % 10))
    }
}

/// A run of `n` spaces.
pub open spec fn spaces(n: int) -> Seq<char>
    decreases n,
{
    if n <= 0 {
        Seq::empty()
    } else {
        spaces(n - 1).push(' ')
    }
}

/// `s` padded with spaces on the right up to width `w`; text already that
/// wide is kept whole.
pub open spec fn pad_right(s: Seq<char>, w: int) -> Seq<char> {
    if s.len() >= w {
        s
    } else {
        s + spaces(w - s.len())
    }
}

/// The text of an optional port: its decimal value, or a dash when absent.
pub open spec fn opt_port_text(p: Option<u16>) -> Seq<char> {
    match p {
        Option::Some(x) => dec_rep(x as int),
        Option::None => seq!['-'],
    }
}

/// The text of a transport protocol.
pub open spec fn proto_text(p: Protocol) -> Seq<char> {
    match p {
        Protocol::Udp => "Udp"@,
        Protocol::Tcp => "Tcp"@,
    }
}

/// What chrono renders for a capture instant: year, month, day, hour, minute
/// and second. The result depends on the seconds value alone.
pub uninterp spec fn timestamp_text_of(secs: i64) -> Seq<char>;

/// Relies on chrono's `DateTime::<Utc>::from_timestamp` and its strftime-style
/// `format`: both are deterministic functions of the seconds value alone, so
/// the rendered text is named by `timestamp_text_of`. A seconds value outside
/// chrono's representable range renders as empty text.
#[verifier::external_body]
fn timestamp_text(secs: i64) -> (r: String)
    ensures
        r@ == timestamp_text_of(secs),
{
    match chrono::DateTime::<chrono::Utc>::from_timestamp(secs, 0) {
        Some(dt) => dt.format("%Y-%m-%d %H:%M:%S").to_string(),
        None => String::new(),
    }
}

/// One report row: every key field and every record field, each padded to its
/// column, separated by vertical bars, ended by a newline.
pub open spec fn row_text(k: FlowKeyView, r: FlowRecord) -> Seq<char> {
    "| "@ + pad_right(k.source_ip, W_IP as int) + "| "@ + pad_right(k.destination_ip, W_IP as int)
        + "| "@ + pad_right(opt_port_text(k.source_port), W_PORT as int) + "| "@ + pad_right(
        opt_port_text(k.destination_port),
        W_PORT as int,
    ) + "| "@ + pad_right(proto_text(k.protocol), W_PROTO as int) + "| "@ + pad_right(
        dec_rep(r.total_bytes as int),
        W_BYTES as int,
    ) + "| "@ + pad_right(timestamp_text_of(r.first_seen), W_TIME as int) + "| "@ + pad_right(
        timestamp_text_of(r.last_seen),
        W_TIME as int,
    ) + "|\n"@
}

/// The banner that precedes the data rows: a separator rule, the column
/// titles, and a second separator rule.
pub open spec fn header_text() -> Seq<char> {
    "------------------------------------------------------------------------------------------------------------------------------\n"@
        + "| Src IP address   | Dst IP address   | Src port| Dst port| Proto| Bytes      | Initial timestamp    | Final timestamp      |\n"@
        + "------------------------------------------------------------------------------------------------------------------------------\n"@
}

/// The data rows for a list of snapshot entries, in list order.
pub open spec fn rows_text(s: Seq<(FlowKey, FlowRecord)>) -> Seq<char>
    decreases s.len(),
{
    if s.len() == 0 {
        Seq::empty()
    } else {
        rows_text(s.drop_last()) + row_text(s.last().0@, s.last().1)
    }
}

/// Append the decimal digit `d`.
fn push_digit(s: &mut String, d: u64)
    requires
        d < 10,
    ensures
        final(s)@ == old(s)@ + seq![dec_digit(d as int)],
{
    let t: &str = match d {
        0 => "0",
        1 => "1",
        2 => "2",
        3 => "3",
        4 => "4",
        5 => "5",
        6 => "6",
        7 => "7",
        8 => "8",
        _ => "9",
    };
    proof {
        reveal_strlit("0");
        reveal_strlit("1");
        reveal_strlit("2");
        reveal_strlit("3");
        reveal_strlit("4");
        reveal_strlit("5");
        reveal_strlit("6");
        reveal_strlit("7");
        reveal_strlit("8");
        reveal_strlit("9");
        assert(t@ =~= seq![dec_digit(d as int)]);
    }
    s.append(t);
}

/// Append the decimal text of `n`.
pub(crate) fn push_u64(s: &mut String, n: u64)
    ensures
        final(s)@ == old(s)@ + dec_rep(n as int),
    decreases n,
{
    if n < 10 {
        push_digit(s, n);
    } else {
        push_u64(s, n / 10);
        push_digit(s, n % 10);
        assert(final(s)@ =~= old(s)@ + dec_rep(n as int));
    }
}

/// Append `piece`, then spaces up to width `w`.
fn push_padded(out: &mut String, piece: &String, w: usize)
    ensures
        final(out)@ == old(out)@ + pad_right(piece@, w as int),
{
    out.append(piece.as_str());
    let mut j = piece.as_str().unicode_len();
    if j >= w {
        return ;
    }
    assert(out@ =~= old(out)@ + piece@ + spaces(0));
    while j < w
        invariant
            j <= w,
            j >= piece@.len(),
            out@ == old(out)@ + piece@ + spaces(j - piece@.len()),
        decreases w - j,
    {
        proof {
            reveal_strlit(" ");
            assert(" "@ =~= seq![' ']);
            assert((old(out)@ + piece@ + spaces(j - piece@.len())) + " "@ =~= old(out)@ + piece@
                + spaces(j + 1 - piece@.len()));
        }
        out.append(" ");
        j = j + 1;
    }
    assert(final(out)@ =~= old(out)@ + pad_right(piece@, w as int));
}

/// The decimal text of `n` as an owned string.
fn u64_string(n: u64) -> (r: String)
    ensures
        r@ == dec_rep(n as int),
{
    let mut s = String::new();
    push_u64(&mut s, n);
    proof {
        assert(s@ =~= dec_rep(n as int));
    }
    s
}

/// The text of an optional port as an owned string.
fn port_string(p: &Option<u16>) -> (r: String)
    ensures
        r@ == opt_port_text(*p),
{
    match p {
        Option::Some(x) => u64_string(*x as u64),
        Option::None => {
            proof {
                reveal_strlit("-");
                assert("-"@ =~= seq!['-']);
            }
            String::from_str("-")
        },
    }
}

/// The text of a transport protocol as an owned string.
fn proto_string(p: &Protocol) -> (r: String)
    ensures
        r@ == proto_text(*p),
{
    match p {
        Protocol::Udp => String::from_str("Udp"),
        Protocol::Tcp => String::from_str("Tcp"),
    }
}

/// Append one report row for the given key and record.
#[verifier::rlimit(60)]
fn push_row(out: &mut String, k: &FlowKey, r: &FlowRecord)
    ensures
        final(out)@ == old(out)@ + row_text(k@, *r),
{
    out.append("| ");
    push_padded(out, &k.source_ip, W_IP);
    out.append("| ");
    push_padded(out, &k.destination_ip, W_IP);
    out.append("| ");
    let sp = port_string(&k.source_port);
    push_padded(out, &sp, W_PORT);
    out.append("| ");
    let dp = port_string(&k.destination_port);
    push_padded(out, &dp, W_PORT);
    out.append("| ");
    let pr = proto_string(&k.protocol);
    push_padded(out, &pr, W_PROTO);
    out.append("| ");
    let by = u64_string(r.total_bytes);
    push_padded(out, &by, W_BYTES);
    out.append("| ");
    let ft = timestamp_text(r.first_seen);
    push_padded(out, &ft, W_TIME);
    out.append("| ");
    let lt = timestamp_text(r.last_seen);
    push_padded(out, &lt, W_TIME);
    out.append("|\n");
    assert(final(out)@ =~= old(out)@ + row_text(k@, *r));
}

/// Render the full report for a snapshot of the flow table: the banner, then
/// one row per snapshot entry, in snapshot order. This is the whole content
/// of one report file; writing it to disk is the caller's concern.
pub fn write_report(entries: &Vec<(FlowKey, FlowRecord)>) -> (r: String)
    ensures
        r@ == header_text() + rows_text(entries@),
{
    let mut out = String::new();
    out.append(
        "------------------------------------------------------------------------------------------------------------------------------\n",
    );
    out.append(
        "| Src IP address   | Dst IP address   | Src port| Dst port| Proto| Bytes      | Initial timestamp    | Final timestamp      |\n",
    );
    out.append(
        "------------------------------------------------------------------------------------------------------------------------------\n",
    );
    assert(out@ =~= header_text());
    let n = entries.len();
    let mut i: usize = 0;
    while i < n
        invariant
            i <= n,
            n == entries@.len(),
            out@ == header_text() + rows_text(entries@.take(i as int)),
        decreases n - i,
    {
        push_row(&mut out, &entries[i].0, &entries[i].1);
        proof {
            let pre = entries@.take(i as int);
            let cur = entries@.take(i + 1 as int);
            assert(cur.drop_last() =~= pre);
            assert(cur.last() == entries@[i as int]);
            assert(header_text() + rows_text(pre) + row_text(entries@[i as int].0@, entries@[i as int].1)
                =~= header_text() + rows_text(cur));
        }
        i = i + 1;
    }
    assert(entries@.take(n as int) =~= entries@);
    out
}

/// The path of the report file for a report name: the fixed report directory,
/// the name, and the fixed text-file suffix.
pub fn report_path(name: &str) -> (p: String)
    ensures
        p@ == "report/"@ + name@ + ".txt"@,
{
    let mut p = String::from_str("report/");
    p.append(name);
    p.append(".txt");
    assert(p@ =~= "report/"@ + name@ + ".txt"@);
    p
}

} // verus!
