//! The flow table: a mapping from flow keys to accumulating per-flow records,
//! together with the accumulation step, its iterated form, and the laws that
//! relate a table to the sequence of packets that built it.
use vstd::prelude::*;
use crate::packet::{FlowKey, FlowKeyView, PacketView, ParsedPacket, key_of};

verus! {

/// The accumulator kept for one flow: total bytes observed, the capture time
/// of the first packet, and the capture time of the most recent packet.
#[derive(Clone, Copy, PartialEq, Eq, Structural, Debug)]
pub struct FlowRecord {
    /// Sum of the sizes of all packets of the flow, saturating at `u64::MAX`.
    pub total_bytes: u64,
    /// Capture time of the first packet ever observed for the flow.
    pub first_seen: i64,
    /// Capture time of the most recently observed packet of the flow.
    pub last_seen: i64,
}

/// Addition on byte counters: exact while the sum fits in a `u64`,
/// saturating at `u64::MAX` beyond it, so that the counter never wraps
/// and stays monotone.
pub open spec fn sat_add(a: u64, b: u64) -> u64 {
    if a + b <= u64::MAX {
        (a + b) as u64
    } else {
        u64::MAX
    }
}

/// One accumulation step: how a table changes when one packet is applied.
/// A present key keeps its `first_seen`, adds the size, and overwrites
/// `last_seen`; an absent key gets a fresh record from the packet alone.
pub open spec fn step(m: Map<FlowKeyView, FlowRecord>, p: PacketView) -> Map<
    FlowKeyView,
    FlowRecord,
> {
    let k = key_of(p);
    if m.dom().contains(k) {
        m.insert(
            k,
            FlowRecord {
                total_bytes: sat_add(m[k].total_bytes, p.size),
                first_seen: m[k].first_seen,
                last_seen: p.timestamp,
            },
        )
    } else {
        m.insert(
            k,
            FlowRecord { total_bytes: p.size, first_seen: p.timestamp, last_seen: p.timestamp },
        )
    }
}

/// The accumulation step iterated over a sequence of packets, oldest first.
pub open spec fn step_seq(m: Map<FlowKeyView, FlowRecord>, ps: Seq<PacketView>) -> Map<
    FlowKeyView,
    FlowRecord,
>
    decreases ps.len(),
{
    if ps.len() == 0 {
        m
    } else {
        step(step_seq(m, ps.drop_last()), ps.last())
    }
}

/// The record that a sequence of packets yields for one key, considering only
/// the packets of that key: `None` when the sequence holds none of them.
pub open spec fn accum_key(ps: Seq<PacketView>, k: FlowKeyView) -> Option<FlowRecord>
    decreases ps.len(),
{
    if ps.len() == 0 {
        Option::None
    } else {
        let prev = accum_key(ps.drop_last(), k);
        let p = ps.last();
        if key_of(p) == k {
            match prev {
                Option::None => Option::Some(
                    FlowRecord {
                        total_bytes: p.size,
                        first_seen: p.timestamp,
                        last_seen: p.timestamp,
                    },
                ),
                Option::Some(r) => Option::Some(
                    FlowRecord {
                        total_bytes: sat_add(r.total_bytes, p.size),
                        first_seen: r.first_seen,
                        last_seen: p.timestamp,
                    },
                ),
            }
        } else {
            prev
        }
    }
}

/// Sum of the sizes of a sequence of packets, as an unbounded integer.
pub open spec fn sum_sizes(ps: Seq<PacketView>) -> int
    decreases ps.len(),
{
    if ps.len() == 0 {
        0
    } else {
        sum_sizes(ps.drop_last()) + ps.last().size
    }
}

/// The map denoted by a list of key/record entries, later entries winning.
spec fn map_of(s: Seq<(FlowKey, FlowRecord)>) -> Map<FlowKeyView, FlowRecord>
    decreases s.len(),
{
    if s.len() == 0 {
        Map::empty()
    } else {
        map_of(s.drop_last()).insert(s.last().0@, s.last().1)
    }
}

/// Entry lists with pairwise distinct keys: the well-formedness of a table.
spec fn distinct_keys(s: Seq<(FlowKey, FlowRecord)>) -> bool {
    forall|i: int, j: int| 0 <= i < j < s.len() ==> s[i].0@ != s[j].0@
}

proof fn lemma_map_of_contains(s: Seq<(FlowKey, FlowRecord)>, k: FlowKeyView)
    ensures
        map_of(s).dom().contains(k) <==> exists|i: int| 0 <= i < s.len() && s[i].0@ == k,
    decreases s.len(),
{
    if s.len() > 0 {
        lemma_map_of_contains(s.drop_last(), k);
        if s.last().0@ == k {
            assert(s[s.len() - 1].0@ == k);
        } else if map_of(s).dom().contains(k) {
            let i = choose|i: int| 0 <= i < s.drop_last().len() && s.drop_last()[i].0@ == k;
            assert(s[i].0@ == k);
        } else {
            assert forall|i: int| 0 <= i < s.len() implies s[i].0@ != k by {
                if i < s.len() - 1 {
                    assert(s.drop_last()[i].0@ == s[i].0@);
                }
            }
        }
    }
}

proof fn lemma_map_of_index(s: Seq<(FlowKey, FlowRecord)>, i: int)
    requires
        distinct_keys(s),
        0 <= i < s.len(),
    ensures
        map_of(s).dom().contains(s[i].0@),
        map_of(s)[s[i].0@] == s[i].1,
    decreases s.len(),
{
    if i == s.len() - 1 {
    } else {
        assert(s.drop_last()[i] == s[i]);
        lemma_map_of_index(s.drop_last(), i);
        assert(s[i].0@ != s.last().0@);
    }
}

proof fn lemma_map_of_update(s: Seq<(FlowKey, FlowRecord)>, i: int, e: (FlowKey, FlowRecord))
    requires
        distinct_keys(s),
        0 <= i < s.len(),
        e.0@ == s[i].0@,
    ensures
        map_of(s.update(i, e)) =~= map_of(s).insert(s[i].0@, e.1),
    decreases s.len(),
{
    if i == s.len() - 1 {
        assert(s.update(i, e).drop_last() =~= s.drop_last());
        assert(s.update(i, e).last() == e);
    } else {
        assert(s.update(i, e).drop_last() =~= s.drop_last().update(i, e));
        assert(s.update(i, e).last() == s.last());
        lemma_map_of_update(s.drop_last(), i, e);
        assert(s.drop_last()[i] == s[i]);
        assert(s[i].0@ != s.last().0@);
    }
}

proof fn lemma_map_of_push(s: Seq<(FlowKey, FlowRecord)>, e: (FlowKey, FlowRecord))
    ensures
        map_of(s.push(e)) == map_of(s).insert(e.0@, e.1),
{
    assert(s.push(e).drop_last() =~= s);
    assert(s.push(e).last() == e);
}

/// The flow table itself: the single source of truth for aggregated traffic.
/// Key uniqueness is an invariant; no entry is ever removed.
pub struct FlowTable {
    entries: Vec<(FlowKey, FlowRecord)>,
}

impl View for FlowTable {
    type V = Map<FlowKeyView, FlowRecord>;

    closed spec fn view(&self) -> Map<FlowKeyView, FlowRecord> {
        map_of(self.entries@)
    }
}

impl FlowTable {
    /// Each key appears in at most one entry.
    pub closed spec fn wf(&self) -> bool {
        distinct_keys(self.entries@)
    }

    /// An empty table.
    pub fn new() -> (t: FlowTable)
        ensures
            t.wf(),
            t@ == Map::<FlowKeyView, FlowRecord>::empty(),
    {
        FlowTable { entries: Vec::new() }
    }

    /// The number of distinct flows observed so far.
    pub fn len(&self) -> (n: usize)
        requires
            self.wf(),
        ensures
            n == self@.dom().len(),
    {
        proof {
            self.lemma_len_entries();
        }
        self.entries.len()
    }

    /// The domain of a well-formed table has exactly one element per entry.
    proof fn lemma_len_entries(&self)
        requires
            self.wf(),
        ensures
            self@.dom().len() == self.entries@.len(),
        decreases self.entries@.len(),
    {
        lemma_len_distinct(self.entries@);
    }

    /// The index of the entry holding `k`, if the table holds one.
    fn find(&self, k: &FlowKey) -> (r: Option<usize>)
        ensures
            match r {
                Option::Some(i) => i < self.entries@.len() && self.entries@[i as int].0@ == k@,
                Option::None => !(exists|i: int|
                    0 <= i < self.entries@.len() && self.entries@[i].0@ == k@),
            },
    {
        let n = self.entries.len();
        let mut i: usize = 0;
        while i < n
            invariant
                i <= n,
                n == self.entries@.len(),
                forall|j: int| 0 <= j < i ==> self.entries@[j].0@ != k@,
            decreases n - i,
        {
            if self.entries[i].0.key_eq(k) {
                return Option::Some(i);
            }
            i = i + 1;
        }
        Option::None
    }

    /// The record currently held for a key, if any.
    pub fn get(&self, k: &FlowKey) -> (r: Option<FlowRecord>)
        requires
            self.wf(),
        ensures
            match r {
                Option::Some(rec) => self@.dom().contains(k@) && self@[k@] == rec,
                Option::None => !self@.dom().contains(k@),
            },
    {
        proof {
            lemma_map_of_contains(self.entries@, k@);
        }
        match self.find(k) {
            Option::Some(i) => {
                proof {
                    lemma_map_of_index(self.entries@, i as int);
                }
                Option::Some(self.entries[i].1)
            },
            Option::None => Option::None,
        }
    }

    /// Apply one packet: the single accumulation step of the aggregator.
    /// A flow already present keeps its `first_seen`, grows `total_bytes` by
    /// the packet's size (saturating), and takes the packet's capture time as
    /// `last_seen`; a new flow starts from the packet alone.
    pub fn apply(&mut self, p: &ParsedPacket)
        requires
            old(self).wf(),
        ensures
            final(self).wf(),
            final(self)@ == step(old(self)@, p@),
    {
        let k = p.flow_key();
        proof {
            lemma_map_of_contains(self.entries@, k@);
        }
        match self.find(&k) {
            Option::Some(i) => {
                proof {
                    lemma_map_of_index(self.entries@, i as int);
                }
                let prev = self.entries[i].1;
                let total = if prev.total_bytes <= u64::MAX - p.size {
                    prev.total_bytes + p.size
                } else {
                    u64::MAX
                };
                let e = (
                    k,
                    FlowRecord {
                        total_bytes: total,
                        first_seen: prev.first_seen,
                        last_seen: p.timestamp,
                    },
                );
                proof {
                    lemma_map_of_update(self.entries@, i as int, e);
                }
                self.entries.set(i, e);
                proof {
                    assert(final(self)@ =~= step(old(self)@, p@));
                }
            },
            Option::None => {
                let e = (
                    k,
                    FlowRecord {
                        total_bytes: p.size,
                        first_seen: p.timestamp,
                        last_seen: p.timestamp,
                    },
                );
                proof {
                    lemma_map_of_push(self.entries@, e);
                    lemma_map_of_contains(self.entries@, k@);
                }
                self.entries.push(e);
                proof {
                    assert(final(self)@ =~= step(old(self)@, p@));
                }
            },
        }
    }

    /// A point-in-time copy of all entries, taken so that a report can be
    /// rendered without further access to the live table.
    pub fn snapshot(&self) -> (s: Vec<(FlowKey, FlowRecord)>)
        requires
            self.wf(),
        ensures
            s@.len() == self@.dom().len(),
            forall|i: int|
                0 <= i < s@.len() ==> self@.dom().contains(#[trigger] s@[i].0@) && self@[s@[i].0@]
                    == s@[i].1,
            forall|k: FlowKeyView|
                self@.dom().contains(k) ==> exists|i: int| 0 <= i < s@.len() && s@[i].0@ == k,
            forall|i: int, j: int| 0 <= i < j < s@.len() ==> s@[i].0@ != s@[j].0@,
    {
        let n = self.entries.len();
        let mut s: Vec<(FlowKey, FlowRecord)> = Vec::new();
        let mut i: usize = 0;
        while i < n
            invariant
                i <= n,
                n == self.entries@.len(),
                s@.len() == i,
                forall|j: int|
                    0 <= j < i ==> s@[j].0@ == self.entries@[j].0@ && s@[j].1
                        == self.entries@[j].1,
            decreases n - i,
        {
            let entry = (self.entries[i].0.duplicate(), self.entries[i].1);
            s.push(entry);
            i = i + 1;
        }
        proof {
            self.lemma_len_entries();
            assert forall|j: int| 0 <= j < s@.len() implies self@.dom().contains(
                #[trigger] s@[j].0@,
            ) && self@[s@[j].0@] == s@[j].1 by {
                lemma_map_of_index(self.entries@, j);
            }
            assert forall|k: FlowKeyView| self@.dom().contains(k) implies exists|i: int|
                0 <= i < s@.len() && s@[i].0@ == k by {
                lemma_map_of_contains(self.entries@, k);
                let i = choose|i: int| 0 <= i < self.entries@.len() && self.entries@[i].0@ == k;
                assert(s@[i].0@ == k);
            }
        }
        s
    }
}

/// A list with pairwise distinct keys denotes a map of the same size.
proof fn lemma_len_distinct(s: Seq<(FlowKey, FlowRecord)>)
    requires
        distinct_keys(s),
    ensures
        map_of(s).dom().len() == s.len(),
        map_of(s).dom().finite(),
    decreases s.len(),
{
    if s.len() > 0 {
        assert(distinct_keys(s.drop_last())) by {
            assert forall|i: int, j: int|
                0 <= i < j < s.drop_last().len() implies s.drop_last()[i].0@
                != s.drop_last()[j].0@ by {
                assert(s.drop_last()[i] == s[i] && s.drop_last()[j] == s[j]);
            }
        }
        lemma_len_distinct(s.drop_last());
        lemma_map_of_contains(s.drop_last(), s.last().0@);
        assert(!map_of(s.drop_last()).dom().contains(s.last().0@)) by {
            assert forall|i: int|
                0 <= i < s.drop_last().len() implies s.drop_last()[i].0@ != s.last().0@ by {
                assert(s.drop_last()[i] == s[i]);
            }
        }
        vstd::set::axiom_set_insert_len(map_of(s.drop_last()).dom(), s.last().0@);
        assert(map_of(s).dom() =~= map_of(s.drop_last()).dom().insert(s.last().0@));
    } else {
        assert(map_of(s).dom() =~= Set::<FlowKeyView>::empty());
    }
}

/// Law: accumulation correctness. For any non-empty sequence of packets that
/// all share one flow key and whose sizes sum within range, processing them
/// from an empty table yields, at that key, exactly the sum of the sizes as
/// `total_bytes`, the first packet's capture time as `first_seen`, and the
/// last packet's capture time as `last_seen`.
pub proof fn lemma_accumulation(ps: Seq<PacketView>, k: FlowKeyView)
    requires
        ps.len() > 0,
        forall|i: int| 0 <= i < ps.len() ==> key_of(#[trigger] ps[i]) == k,
        sum_sizes(ps) <= u64::MAX,
    ensures
        step_seq(Map::empty(), ps).dom().contains(k),
        step_seq(Map::empty(), ps)[k].total_bytes == sum_sizes(ps),
        step_seq(Map::empty(), ps)[k].first_seen == ps[0].timestamp,
        step_seq(Map::empty(), ps)[k].last_seen == ps[ps.len() - 1].timestamp,
{
    lemma_sum_sizes_bounds(ps);
    lemma_accum_same_key(ps, k);
    lemma_table_is_accumulation(ps, k);
}

/// `accum_key` on a sequence all of one key: totals add up exactly while the
/// sum is in range, and the first and last capture times are kept.
proof fn lemma_accum_same_key(ps: Seq<PacketView>, k: FlowKeyView)
    requires
        ps.len() > 0,
        forall|i: int| 0 <= i < ps.len() ==> key_of(#[trigger] ps[i]) == k,
        sum_sizes(ps) <= u64::MAX,
    ensures
        accum_key(ps, k) == Option::Some(
            FlowRecord {
                total_bytes: sum_sizes(ps) as u64,
                first_seen: ps[0].timestamp,
                last_seen: ps[ps.len() - 1].timestamp,
            },
        ),
    decreases ps.len(),
{
    lemma_sum_sizes_bounds(ps);
    if ps.len() == 1 {
        assert(ps.drop_last().len() == 0);
    } else {
        let pre = ps.drop_last();
        lemma_sum_sizes_bounds(pre);
        assert(forall|i: int| 0 <= i < pre.len() ==> key_of(#[trigger] pre[i]) == k) by {
            assert(forall|i: int| 0 <= i < pre.len() ==> pre[i] == ps[i]);
        }
        lemma_accum_same_key(pre, k);
        assert(pre[0] == ps[0]);
        assert(key_of(ps.last()) == k);
        assert(sat_add((sum_sizes(pre)) as u64, ps.last().size) == sum_sizes(ps) as u64);
    }
}

/// Every size is non-negative, so partial sums never exceed the whole.
proof fn lemma_sum_sizes_bounds(ps: Seq<PacketView>)
    ensures
        0 <= sum_sizes(ps),
        ps.len() > 0 ==> sum_sizes(ps.drop_last()) <= sum_sizes(ps),
    decreases ps.len(),
{
    if ps.len() > 0 {
        lemma_sum_sizes_bounds(ps.drop_last());
    }
}

/// Law: the table is the per-key accumulation. After processing any sequence
/// of packets from an empty table, the table holds a key exactly when the
/// sequence holds a packet of that key, and the record at the key is
/// `accum_key` of the sequence.
pub proof fn lemma_table_is_accumulation(ps: Seq<PacketView>, k: FlowKeyView)
    ensures
        step_seq(Map::empty(), ps).dom().contains(k) <==> accum_key(ps, k) is Some,
        accum_key(ps, k) is Some ==> step_seq(Map::empty(), ps)[k] == accum_key(ps, k)->Some_0,
    decreases ps.len(),
{
    if ps.len() > 0 {
        lemma_table_is_accumulation(ps.drop_last(), k);
        let p = ps.last();
        if key_of(p) == k {
            lemma_table_is_accumulation(ps.drop_last(), key_of(p));
        }
    }
}

/// Law: key partitioning, one step. Applying a packet changes the record of
/// its own key alone: any other key keeps its presence and its record.
pub proof fn lemma_key_partitioning(
    m: Map<FlowKeyView, FlowRecord>,
    p: PacketView,
    k: FlowKeyView,
)
    requires
        k != key_of(p),
    ensures
        step(m, p).dom().contains(k) <==> m.dom().contains(k),
        m.dom().contains(k) ==> step(m, p)[k] == m[k],
{
}

/// Law: key partitioning over a whole run. The record a key accumulates is
/// untouched by packets of any other key.
pub proof fn lemma_accum_ignores_other_keys(ps: Seq<PacketView>, p: PacketView, k: FlowKeyView)
    requires
        key_of(p) != k,
    ensures
        accum_key(ps.push(p), k) == accum_key(ps, k),
{
    assert(ps.push(p).drop_last() =~= ps);
    assert(ps.push(p).last() == p);
}

/// The two packets whose capture times a record carries: `first_seen` is the
/// time of some matching packet, `last_seen` the time of a matching packet no
/// earlier in arrival order.
proof fn lemma_accum_endpoints(ps: Seq<PacketView>, k: FlowKeyView) -> (w: (int, int))
    requires
        accum_key(ps, k) is Some,
    ensures
        0 <= w.0 <= w.1 < ps.len(),
        key_of(ps[w.0]) == k,
        key_of(ps[w.1]) == k,
        accum_key(ps, k)->Some_0.first_seen == ps[w.0].timestamp,
        accum_key(ps, k)->Some_0.last_seen == ps[w.1].timestamp,
    decreases ps.len(),
{
    if key_of(ps.last()) == k {
        if accum_key(ps.drop_last(), k) is Some {
            let w0 = lemma_accum_endpoints(ps.drop_last(), k);
            assert(ps[w0.0] == ps.drop_last()[w0.0]);
            (w0.0, ps.len() - 1)
        } else {
            (ps.len() - 1, ps.len() - 1)
        }
    } else {
        let w0 = lemma_accum_endpoints(ps.drop_last(), k);
        assert(ps[w0.0] == ps.drop_last()[w0.0]);
        assert(ps[w0.1] == ps.drop_last()[w0.1]);
        w0
    }
}

/// Law: record time order. With packets delivered in non-decreasing
/// capture-time order, every accumulated record keeps
/// `first_seen <= last_seen`.
pub proof fn lemma_first_seen_before_last_seen(ps: Seq<PacketView>, k: FlowKeyView)
    requires
        forall|i: int, j: int|
            0 <= i <= j < ps.len() ==> ps[i].timestamp <= ps[j].timestamp,
        accum_key(ps, k) is Some,
    ensures
        accum_key(ps, k)->Some_0.first_seen <= accum_key(ps, k)->Some_0.last_seen,
{
    let w = lemma_accum_endpoints(ps, k);
    assert(ps[w.0].timestamp <= ps[w.1].timestamp);
}

/// Law: snapshot consistency. The record a sequence of packets yields for a
/// key is exactly the record yielded by the subsequence of packets of that
/// key: a snapshot can never show a `last_seen` from a packet whose size it
/// excludes, since both come from the same per-key subsequence.
pub proof fn lemma_snapshot_consistency(ps: Seq<PacketView>, k: FlowKeyView)
    ensures
        accum_key(ps, k) == accum_key(ps.filter(|p: PacketView| key_of(p) == k), k),
    decreases ps.len(),
{
    reveal(Seq::filter);
    if ps.len() > 0 {
        lemma_snapshot_consistency(ps.drop_last(), k);
        let pred = |p: PacketView| key_of(p) == k;
        if pred(ps.last()) {
            assert(ps.filter(pred) == ps.drop_last().filter(pred).push(ps.last()));
            assert(ps.filter(pred).drop_last() =~= ps.drop_last().filter(pred));
            assert(ps.filter(pred).last() == ps.last());
        } else {
            assert(ps.filter(pred) == ps.drop_last().filter(pred));
        }
    }
}

} // verus!
