//! The lifecycle: the report writer's tri-state machine (running, paused,
//! exited), and the analyzer that applies pause, resume and exit to packet
//! intake, aggregation and reporting as one consistent operation.
use vstd::prelude::*;
use crate::aggregator::Aggregator;
use crate::flow_table::{step_seq, FlowRecord};
use crate::packet::FlowKey;
use crate::report::{header_text, rows_text, write_report};

verus! {

/// The state of the report writer. `Exited` is terminal.
#[derive(Clone, Copy, PartialEq, Eq, Structural, Debug)]
pub enum WriterState {
    Running,
    Paused,
    Exited,
}

/// What `pause` does to a state: a writer that has exited stays exited,
/// any other writer is paused. Pausing a paused writer changes nothing.
pub open spec fn spec_pause(s: WriterState) -> WriterState {
    if s is Exited {
        s
    } else {
        WriterState::Paused
    }
}

/// What `resume` does to a state: a writer that has exited stays exited,
/// any other writer runs. Resuming a running writer changes nothing.
pub open spec fn spec_resume(s: WriterState) -> WriterState {
    if s is Exited {
        s
    } else {
        WriterState::Running
    }
}

/// Whether a tick in the given state produces a report: only while running.
pub open spec fn tick_writes(s: WriterState) -> bool {
    s is Running
}

/// The two lifecycle toggles a caller may issue after construction, besides
/// the one-way exit.
#[derive(Clone, Copy, PartialEq, Eq, Structural, Debug)]
pub enum LifecycleCommand {
    Pause,
    Resume,
}

/// One lifecycle toggle applied to a writer state.
pub open spec fn apply_command(s: WriterState, c: LifecycleCommand) -> WriterState {
    match c {
        LifecycleCommand::Pause => spec_pause(s),
        LifecycleCommand::Resume => spec_resume(s),
    }
}

/// A whole sequence of lifecycle toggles applied in order.
pub open spec fn apply_commands(s: WriterState, cs: Seq<LifecycleCommand>) -> WriterState
    decreases cs.len(),
{
    if cs.len() == 0 {
        s
    } else {
        apply_command(apply_commands(s, cs.drop_last()), cs.last())
    }
}

/// Law: pause and resume are idempotent. Issuing the same toggle twice in a
/// row leaves exactly the state that issuing it once leaves.
pub proof fn lemma_toggle_idempotent(s: WriterState, c: LifecycleCommand)
    ensures
        apply_command(apply_command(s, c), c) == apply_command(s, c),
{
}

/// Law: exit is terminal. After the writer has exited, no sequence of pause
/// and resume calls moves it out of the exited state, and no tick in any of
/// the states so reached produces a report.
pub proof fn lemma_exit_terminal(cs: Seq<LifecycleCommand>)
    ensures
        apply_commands(WriterState::Exited, cs) == WriterState::Exited,
        !tick_writes(apply_commands(WriterState::Exited, cs)),
    decreases cs.len(),
{
    if cs.len() > 0 {
        lemma_exit_terminal(cs.drop_last());
    }
}

/// The report writer: wakes on a fixed interval and, while running, renders a
/// snapshot of the flow table; while paused, ticks are skipped, not queued.
/// The timer that drives the ticks and the file that receives the text are
/// the hosting process's concern.
pub struct ReportWriter {
    state: WriterState,
    report_name: String,
    interval_secs: u64,
}

impl ReportWriter {
    /// The current lifecycle state.
    pub closed spec fn lifecycle(&self) -> WriterState {
        self.state
    }

    /// The report name the writer was constructed with.
    pub closed spec fn name_view(&self) -> Seq<char> {
        self.report_name@
    }

    /// The tick interval, in seconds, the writer was constructed with.
    pub closed spec fn interval(&self) -> u64 {
        self.interval_secs
    }

    /// A fresh writer: running, with the given report name and interval.
    pub fn new(report_name: String, interval_secs: u64) -> (w: ReportWriter)
        ensures
            w.lifecycle() == WriterState::Running,
            w.name_view() == report_name@,
            w.interval() == interval_secs,
    {
        ReportWriter { state: WriterState::Running, report_name, interval_secs }
    }

    /// Pause report writing. A no-op while already paused; without effect
    /// after exit.
    pub fn pause(&mut self)
        ensures
            final(self).lifecycle() == spec_pause(old(self).lifecycle()),
            final(self).name_view() == old(self).name_view(),
            final(self).interval() == old(self).interval(),
    {
        match self.state {
            WriterState::Exited => {},
            _ => {
                self.state = WriterState::Paused;
            },
        }
    }

    /// Resume report writing on the next tick. A no-op while already running;
    /// without effect after exit.
    pub fn resume(&mut self)
        ensures
            final(self).lifecycle() == spec_resume(old(self).lifecycle()),
            final(self).name_view() == old(self).name_view(),
            final(self).interval() == old(self).interval(),
    {
        match self.state {
            WriterState::Exited => {},
            _ => {
                self.state = WriterState::Running;
            },
        }
    }

    /// Exit for good: no later tick produces a report, and neither pause nor
    /// resume has any further effect.
    pub fn exit(&mut self)
        ensures
            final(self).lifecycle() == WriterState::Exited,
            final(self).name_view() == old(self).name_view(),
            final(self).interval() == old(self).interval(),
    {
        self.state = WriterState::Exited;
    }

    /// The tick interval in seconds, for the timer that drives the ticks.
    pub fn tick_interval(&self) -> (t: u64)
        ensures
            t == self.interval(),
    {
        self.interval_secs
    }

    /// The report name, for deriving the report file path.
    pub fn current_name(&self) -> (n: &String)
        ensures
            n@ == self.name_view(),
    {
        &self.report_name
    }

    /// Whether a tick right now would produce a report: the per-tick
    /// decision, exposed so a host can copy the table under its lock and
    /// render the report after releasing it.
    pub fn is_writing(&self) -> (r: bool)
        ensures
            r == tick_writes(self.lifecycle()),
    {
        match self.state {
            WriterState::Running => true,
            _ => false,
        }
    }

    /// Whether the writer has exited for good.
    pub fn is_exited(&self) -> (r: bool)
        ensures
            r == (self.lifecycle() is Exited),
    {
        match self.state {
            WriterState::Exited => true,
            _ => false,
        }
    }

    /// One tick of the periodic timer, given a snapshot of the flow table:
    /// while running, the rendered report for exactly that snapshot; while
    /// paused or after exit, no report at all.
    pub fn on_tick(&self, snapshot: &Vec<(FlowKey, FlowRecord)>) -> (r: Option<String>)
        ensures
            r is Some <==> tick_writes(self.lifecycle()),
            r is Some ==> r->Some_0@ == header_text() + rows_text(snapshot@),
    {
        match self.state {
            WriterState::Running => Option::Some(write_report(snapshot)),
            _ => Option::None,
        }
    }
}

/// The lifecycle controller: one capture session's packet intake, aggregator
/// and report writer, with pause, resume and exit applied to all of them as
/// one operation.
pub struct Analyzer {
    /// The capture device the session was opened on.
    pub device: String,
    /// Whether packet intake is currently accepted.
    pub intake_running: bool,
    /// The aggregation pipeline of the session.
    pub aggregator: Aggregator,
    /// The periodic report writer of the session.
    pub report_writer: ReportWriter,
}

impl Analyzer {
    pub open spec fn wf(&self) -> bool {
        self.aggregator.wf()
    }

    /// A fresh session on the given device: intake accepted, nothing
    /// aggregated, and a running report writer with the given report name
    /// and interval in seconds.
    pub fn new(device: &str, filename: &str, timer: u64) -> (a: Analyzer)
        ensures
            a.wf(),
            a.device@ == device@,
            a.intake_running,
            !a.aggregator.is_closed(),
            a.aggregator.pending().len() == 0,
            a.aggregator.table_view().dom() =~= Set::empty(),
            a.report_writer.lifecycle() == WriterState::Running,
            a.report_writer.name_view() == filename@,
            a.report_writer.interval() == timer,
    {
        Analyzer {
            device: device.to_owned(),
            intake_running: true,
            aggregator: Aggregator::new(),
            report_writer: ReportWriter::new(filename.to_owned(), timer),
        }
    }

    /// Pause the session: packet intake and report writing stop together, so
    /// that a suspended session neither aggregates new packets nor writes.
    /// Without effect on a writer that has exited.
    pub fn pause(&mut self)
        requires
            old(self).wf(),
        ensures
            final(self).wf(),
            !final(self).intake_running,
            final(self).report_writer.lifecycle() == spec_pause(
                old(self).report_writer.lifecycle(),
            ),
            final(self).report_writer.name_view() == old(self).report_writer.name_view(),
            final(self).report_writer.interval() == old(self).report_writer.interval(),
            final(self).aggregator == old(self).aggregator,
            final(self).device@ == old(self).device@,
    {
        self.intake_running = false;
        self.report_writer.pause();
    }

    /// Resume the session: packet intake and report writing resume together.
    /// Without effect on a writer that has exited.
    pub fn resume(&mut self)
        requires
            old(self).wf(),
        ensures
            final(self).wf(),
            final(self).intake_running,
            final(self).report_writer.lifecycle() == spec_resume(
                old(self).report_writer.lifecycle(),
            ),
            final(self).report_writer.name_view() == old(self).report_writer.name_view(),
            final(self).report_writer.interval() == old(self).report_writer.interval(),
            final(self).aggregator == old(self).aggregator,
            final(self).device@ == old(self).device@,
    {
        self.intake_running = true;
        self.report_writer.resume();
    }

    /// End the session: intake stops, the report writer exits for good, and
    /// the aggregator's queue is closed and drained so that every packet
    /// accepted before the exit is reflected in the final table.
    pub fn exit(&mut self)
        requires
            old(self).wf(),
        ensures
            final(self).wf(),
            !final(self).intake_running,
            final(self).report_writer.lifecycle() == WriterState::Exited,
            final(self).aggregator.is_closed(),
            final(self).aggregator.pending().len() == 0,
            final(self).aggregator.table_view() == step_seq(
                old(self).aggregator.table_view(),
                old(self).aggregator.pending(),
            ),
            final(self).device@ == old(self).device@,
    {
        self.intake_running = false;
        self.aggregator.close();
        self.aggregator.drain();
        self.report_writer.exit();
    }
}

} // verus!
