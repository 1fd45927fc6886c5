//! Decoding one captured ethernet frame into a packet event: the header
//! decode itself is etherparse's work, named and trusted at its interface;
//! everything that maps the decoded fields into a `ParsedPacket` is verified.
use vstd::prelude::*;
use vstd::string::StringExecFns;
use crate::packet::{PacketView, ParsedPacket, Protocol};
use crate::report::{dec_rep, push_u64};
use etherparse::{NetHeaders, TransportHeader};

verus! {

/// What etherparse decodes from the bytes of one ethernet frame. The first
/// component holds the IP source and destination address bytes when an IPv4
/// or IPv6 header is present; the second holds the transport protocol (true
/// for UDP, false for TCP) with its source and destination ports when a UDP
/// or TCP header is present. The decode is a function of the frame bytes
/// alone.
pub uninterp spec fn decoded_of(data: Seq<u8>) -> (Option<(Seq<u8>, Seq<u8>)>, Option<
    (bool, u16, u16),
>);

/// The mathematical image of an optional pair of address byte vectors.
pub open spec fn ip_pair_view(o: Option<(Vec<u8>, Vec<u8>)>) -> Option<(Seq<u8>, Seq<u8>)> {
    match o {
        Option::None => Option::None,
        Option::Some(p) => Option::Some((p.0@, p.1@)),
    }
}

/// Relies on `etherparse::PacketHeaders::from_ethernet_slice`: a
/// deterministic decode of the frame bytes alone, whose outcome this wrapper
/// reduces to the IP address bytes and the UDP/TCP port fields named by
/// `decoded_of`. A frame that fails to decode, carries no IP header, or
/// carries a transport other than UDP or TCP yields `None` in the
/// corresponding component.
#[verifier::external_body]
fn decode_ethernet(data: &[u8]) -> (r: (Option<(Vec<u8>, Vec<u8>)>, Option<(bool, u16, u16)>))
    ensures
        ip_pair_view(r.0) == decoded_of(data@).0,
        r.1 == decoded_of(data@).1,
{
    match etherparse::PacketHeaders::from_ethernet_slice(data) {
        Err(_) => (None, None),
        Ok(ph) => (
            match ph.net {
                Some(NetHeaders::Ipv4(h, _)) => Some((h.source.to_vec(), h.destination.to_vec())),
                Some(NetHeaders::Ipv6(h, _)) => Some((h.source.to_vec(), h.destination.to_vec())),
                _ => None,
            },
            match ph.transport {
                Some(TransportHeader::Udp(u)) => Some((true, u.source_port, u.destination_port)),
                Some(TransportHeader::Tcp(t)) => Some((false, t.source_port, t.destination_port)),
                _ => None,
            },
        ),
    }
}

/// The textual form of an address: its bytes written in decimal, joined by
/// dots.
pub open spec fn dotted(bs: Seq<u8>) -> Seq<char>
    decreases bs.len(),
{
    if bs.len() == 0 {
        Seq::empty()
    } else if bs.len() == 1 {
        dec_rep(bs[0] as int)
    } else {
        dotted(bs.drop_last()) + seq!['.'] + dec_rep(bs.last() as int)
    }
}

/// Render address bytes as dotted decimal text.
fn dotted_text(bs: &Vec<u8>) -> (r: String)
    ensures
        r@ == dotted(bs@),
{
    let mut s = String::new();
    let n = bs.len();
    let mut i: usize = 0;
    while i < n
        invariant
            i <= n,
            n == bs@.len(),
            s@ == dotted(bs@.take(i as int)),
        decreases n - i,
    {
        if i > 0 {
            proof {
                reveal_strlit(".");
                assert("."@ =~= seq!['.']);
            }
            s.append(".");
        }
        push_u64(&mut s, bs[i] as u64);
        proof {
            let pre = bs@.take(i as int);
            let cur = bs@.take(i + 1 as int);
            assert(cur.drop_last() =~= pre);
            assert(cur.last() == bs@[i as int]);
            assert(s@ =~= dotted(cur));
        }
        i = i + 1;
    }
    assert(bs@.take(n as int) =~= bs@);
    s
}

/// The packet event denoted by decoded IP addresses, a decoded transport, and
/// the capture header's time and frame length.
pub open spec fn packet_of(
    ips: (Seq<u8>, Seq<u8>),
    tr: (bool, u16, u16),
    tv_sec: i64,
    frame_len: u32,
) -> PacketView {
    PacketView {
        timestamp: tv_sec,
        source_ip: dotted(ips.0),
        destination_ip: dotted(ips.1),
        source_port: Option::Some(tr.1),
        destination_port: Option::Some(tr.2),
        protocol: if tr.0 {
            Protocol::Udp
        } else {
            Protocol::Tcp
        },
        size: frame_len as u64,
    }
}

/// Build the packet event from decoded headers: a packet exists exactly when
/// an IP header and a UDP or TCP header were both present.
pub fn packet_from_headers(
    ips: Option<(Vec<u8>, Vec<u8>)>,
    transport: Option<(bool, u16, u16)>,
    tv_sec: i64,
    frame_len: u32,
) -> (r: Option<ParsedPacket>)
    ensures
        match r {
            Option::Some(p) => ip_pair_view(ips) is Some && transport is Some && p@ == packet_of(
                ip_pair_view(ips)->Some_0,
                transport->Some_0,
                tv_sec,
                frame_len,
            ),
            Option::None => !(ip_pair_view(ips) is Some && transport is Some),
        },
{
    match (ips, transport) {
        (Option::Some(pair), Option::Some(tr)) => {
            let source_ip = dotted_text(&pair.0);
            let destination_ip = dotted_text(&pair.1);
            Option::Some(
                ParsedPacket {
                    timestamp: tv_sec,
                    source_ip,
                    destination_ip,
                    source_port: Option::Some(tr.1),
                    destination_port: Option::Some(tr.2),
                    protocol: if tr.0 {
                        Protocol::Udp
                    } else {
                        Protocol::Tcp
                    },
                    size: frame_len as u64,
                },
            )
        },
        _ => Option::None,
    }
}

/// Decode one captured frame into a packet event. `Some` exactly when the
/// frame carries an IP header and a UDP or TCP header; any other frame is
/// dropped here and never reaches the aggregation core.
pub fn parse_packet(data: &[u8], tv_sec: i64, frame_len: u32) -> (r: Option<ParsedPacket>)
    ensures
        match r {
            Option::Some(p) => decoded_of(data@).0 is Some && decoded_of(data@).1 is Some && p@
                == packet_of(
                decoded_of(data@).0->Some_0,
                decoded_of(data@).1->Some_0,
                tv_sec,
                frame_len,
            ),
            Option::None => !(decoded_of(data@).0 is Some && decoded_of(data@).1 is Some),
        },
{
    let (ips, transport) = decode_ethernet(data);
    packet_from_headers(ips, transport, tv_sec, frame_len)
}

} // verus!
