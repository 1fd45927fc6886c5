//! The aggregator: a queue of pending packet events and the flow table they
//! are applied to, one at a time, in the order received. Serialising all
//! table mutations through this single consumer is what makes the
//! accumulation deterministic.
use vstd::prelude::*;
use crate::flow_table::{step, step_seq, FlowRecord, FlowTable};
use crate::packet::{FlowKeyView, PacketView, ParsedPacket};

verus! {

/// Why a send was refused. The only refusal: the queue was already closed,
/// so the consuming worker will never service the packet.
#[derive(Clone, Copy, PartialEq, Eq, Structural, Debug)]
pub enum SendError {
    QueueClosed,
}

/// The aggregator state: the packets accepted but not yet applied, the flow
/// table, and whether the queue has been closed for good.
pub struct Aggregator {
    queue: Vec<ParsedPacket>,
    table: FlowTable,
    closed: bool,
}

impl Aggregator {
    /// The packets accepted and not yet applied, oldest first.
    pub closed spec fn pending(&self) -> Seq<PacketView> {
        self.queue@.map_values(|p: ParsedPacket| p@)
    }

    /// The aggregated traffic so far.
    pub closed spec fn table_view(&self) -> Map<FlowKeyView, FlowRecord> {
        self.table@
    }

    /// Whether the queue has been closed: closure is permanent.
    pub closed spec fn is_closed(&self) -> bool {
        self.closed
    }

    pub closed spec fn wf(&self) -> bool {
        self.table.wf()
    }

    /// A fresh aggregator: open queue, nothing pending, empty table.
    pub fn new() -> (a: Aggregator)
        ensures
            a.wf(),
            !a.is_closed(),
            a.pending() == Seq::<PacketView>::empty(),
            a.table_view() == Map::<FlowKeyView, FlowRecord>::empty(),
    {
        let a = Aggregator { queue: Vec::new(), table: FlowTable::new(), closed: false };
        proof {
            assert(a.pending() =~= Seq::<PacketView>::empty());
        }
        a
    }

    /// Enqueue one packet for processing. Accepted while the queue is open;
    /// once the queue is closed the packet is dropped and the failure is
    /// reported to the caller, never retried.
    pub fn send(&mut self, p: ParsedPacket) -> (r: Result<(), SendError>)
        requires
            old(self).wf(),
        ensures
            final(self).wf(),
            final(self).is_closed() == old(self).is_closed(),
            final(self).table_view() == old(self).table_view(),
            old(self).is_closed() ==> r == Result::<(), SendError>::Err(SendError::QueueClosed)
                && final(self).pending() == old(self).pending(),
            !old(self).is_closed() ==> r == Result::<(), SendError>::Ok(())
                && final(self).pending() == old(self).pending().push(p@),
    {
        if self.closed {
            Result::Err(SendError::QueueClosed)
        } else {
            self.queue.push(p);
            proof {
                assert(self.pending() =~= old(self).pending().push(p@));
            }
            Result::Ok(())
        }
    }

    /// Apply the oldest pending packet to the flow table, if one is pending:
    /// the single step of the consuming worker.
    pub fn process_one(&mut self) -> (processed: bool)
        requires
            old(self).wf(),
        ensures
            final(self).wf(),
            final(self).is_closed() == old(self).is_closed(),
            processed == (old(self).pending().len() > 0),
            !processed ==> final(self).pending() == old(self).pending() && final(self).table_view()
                == old(self).table_view(),
            processed ==> final(self).pending() == old(self).pending().drop_first()
                && final(self).table_view() == step(old(self).table_view(), old(self).pending()[0]),
    {
        if self.queue.len() == 0 {
            return false;
        }
        let p = self.queue.remove(0);
        self.table.apply(&p);
        proof {
            assert(final(self).pending() =~= old(self).pending().drop_first());
        }
        true
    }

    /// Apply every pending packet, oldest first, leaving the queue empty:
    /// the graceful drain that precedes a worker's termination.
    pub fn drain(&mut self)
        requires
            old(self).wf(),
        ensures
            final(self).wf(),
            final(self).is_closed() == old(self).is_closed(),
            final(self).pending().len() == 0,
            final(self).table_view() == step_seq(old(self).table_view(), old(self).pending()),
    {
        let ghost all = old(self).pending();
        let ghost m0 = old(self).table_view();
        let mut done: bool = false;
        let ghost i: int = 0;
        while !done
            invariant
                self.wf(),
                self.is_closed() == old(self).is_closed(),
                0 <= i <= all.len(),
                self.pending() =~= all.skip(i),
                self.table_view() == step_seq(m0, all.take(i)),
                done ==> self.pending().len() == 0,
            decreases all.len() - i + (if done {
                0int
            } else {
                1int
            }),
        {
            let processed = self.process_one();
            proof {
                if processed {
                    assert(all.skip(i).len() > 0);
                    assert(all.skip(i)[0] == all[i]);
                    assert(all.skip(i).drop_first() =~= all.skip(i + 1));
                    assert(all.take(i + 1).drop_last() =~= all.take(i));
                    assert(all.take(i + 1).last() == all[i]);
                    i = i + 1;
                }
            }
            if !processed {
                done = true;
            }
        }
        proof {
            assert(all.take(all.len() as int) =~= all);
        }
    }

    /// Close the queue for good: every later send is refused. Closure is the
    /// signal on which the consuming worker stops once it has drained.
    pub fn close(&mut self)
        requires
            old(self).wf(),
        ensures
            final(self).wf(),
            final(self).is_closed(),
            final(self).pending() == old(self).pending(),
            final(self).table_view() == old(self).table_view(),
    {
        self.closed = true;
    }

    /// A read handle on the live flow table, for taking report snapshots.
    pub fn get_aggregated_data(&self) -> (t: &FlowTable)
        requires
            self.wf(),
        ensures
            t.wf(),
            t@ == self.table_view(),
    {
        &self.table
    }
}

} // verus!
