//! The polling loop and what precedes it: whether the agent may start at
//! all, and when the next pass begins. Passes never overlap, and a request
//! to stop is looked at only between two passes.

use crate::constants::DEFAULT_POLL_INTERVAL_SECS;
use crate::error::ErrorKind;
use vstd::prelude::*;

verus! {

/// What the agent does once it has looked at the machine.
#[derive(Debug, Clone, Copy, PartialEq, Eq, Structural)]
pub enum Startup {
    /// There is no desired-state file: wait for the shutdown signal and
    /// leave, without entering the loop.
    AwaitSetup,
    /// The script shell is missing: leave at once, with a failure.
    Abort(ErrorKind),
    /// Enter the loop.
    Run,
}

/// What the agent does at startup, given whether the desired-state file
/// exists and whether the script shell answers. The file is looked at
/// first: without it the shell is not asked for.
pub open spec fn startup_decision(config_present: bool, shell_available: bool) -> Startup {
    if !config_present {
        Startup::AwaitSetup
    } else if !shell_available {
        Startup::Abort(ErrorKind::Dependency)
    } else {
        Startup::Run
    }
}

/// The exit code of the process: 0 unless startup was aborted.
pub open spec fn exit_code_of(startup: Startup) -> int {
    match startup {
        Startup::Abort(_) => 1,
        _ => 0,
    }
}

/// What the agent does at startup.
pub fn decide_startup(config_present: bool, shell_available: bool) -> (r: Startup)
    ensures
        r == startup_decision(config_present, shell_available),
{
    if !config_present {
        Startup::AwaitSetup
    } else if !shell_available {
        Startup::Abort(ErrorKind::Dependency)
    } else {
        Startup::Run
    }
}

/// The exit code with which the process ends.
pub fn exit_code(startup: Startup) -> (r: i32)
    ensures
        r == exit_code_of(startup),
{
    match startup {
        Startup::Abort(_) => 1,
        _ => 0,
    }
}

/// Where the polling loop stands.
#[derive(Debug, Clone, Copy, PartialEq, Eq, Structural)]
pub enum LoopPhase {
    /// The interval before the next pass is running.
    Waiting,
    /// A pass is in progress.
    Reconciling,
    /// The loop has ended.
    Stopped,
}

/// What happened in the loop.
#[derive(Debug, Clone, Copy, PartialEq, Eq, Structural)]
pub enum LoopEvent {
    /// The interval is over.
    IntervalElapsed,
    /// The pass has returned.
    PassCompleted,
}

/// What the loop does next.
#[derive(Debug, Clone, Copy, PartialEq, Eq, Structural)]
pub enum Directive {
    /// Wait for this many seconds, then report [`LoopEvent::IntervalElapsed`].
    Wait(u64),
    /// Run one pass, then report [`LoopEvent::PassCompleted`].
    RunPass,
    /// Nothing new: what is in progress goes on.
    Continue,
    /// Leave the loop.
    Exit,
}

/// The polling loop: its phase, the interval between two passes, and the
/// cancellation flag.
#[derive(Debug, Clone, Copy, PartialEq, Eq, Structural)]
pub struct Supervisor {
    pub phase: LoopPhase,
    pub interval_secs: u64,
    pub cancelled: bool,
}

/// Something that reaches the loop: a request to stop, or an event.
#[derive(Debug, Clone, Copy, PartialEq, Eq, Structural)]
pub enum LoopInput {
    Cancel,
    Event(LoopEvent),
}

impl Supervisor {
    /// The loop at an iteration boundary: it ends where the cancellation
    /// flag is set, and waits for the next pass where it is not.
    pub open spec fn at_boundary(self) -> (Supervisor, Directive) {
        if self.cancelled {
            (Supervisor { phase: LoopPhase::Stopped, ..self }, Directive::Exit)
        } else {
            (Supervisor { phase: LoopPhase::Waiting, ..self }, Directive::Wait(self.interval_secs))
        }
    }

    /// The loop as it is entered, with the cancellation flag as it stands
    /// then: at an iteration boundary.
    pub open spec fn entered(interval_secs: u64, cancelled: bool) -> (Supervisor, Directive) {
        (Supervisor { phase: LoopPhase::Waiting, interval_secs, cancelled }).at_boundary()
    }

    /// The rules of the loop: the state that follows on `event`, and what
    /// to do next. The cancellation flag is looked at on entry and when a
    /// pass has returned, and at no other time.
    pub open spec fn after(self, event: LoopEvent) -> (Supervisor, Directive) {
        match (self.phase, event) {
            (LoopPhase::Stopped, _) => (self, Directive::Exit),
            (LoopPhase::Waiting, LoopEvent::IntervalElapsed) => (
                Supervisor { phase: LoopPhase::Reconciling, ..self },
                Directive::RunPass,
            ),
            (LoopPhase::Reconciling, LoopEvent::PassCompleted) => self.at_boundary(),
            _ => (self, Directive::Continue),
        }
    }

    /// The loop with the cancellation flag set.
    pub open spec fn cancel_requested(self) -> Supervisor {
        Supervisor { cancelled: true, ..self }
    }

    /// The state that follows on an input, and what to do next.
    pub open spec fn fed(self, input: LoopInput) -> (Supervisor, Directive) {
        match input {
            LoopInput::Cancel => (
                self.cancel_requested(),
                if self.phase is Stopped {
                    Directive::Exit
                } else {
                    Directive::Continue
                },
            ),
            LoopInput::Event(event) => self.after(event),
        }
    }

    /// The state after a sequence of inputs.
    pub open spec fn run(self, inputs: Seq<LoopInput>) -> Supervisor
        decreases inputs.len(),
    {
        if inputs.len() == 0 {
            self
        } else {
            self.run(inputs.drop_last()).fed(inputs.last()).0
        }
    }

    /// What the loop was told to do on the last of a sequence of inputs.
    pub open spec fn last_directive(self, inputs: Seq<LoopInput>) -> Directive
        recommends
            inputs.len() > 0,
    {
        self.run(inputs.drop_last()).fed(inputs.last()).1
    }

    /// The number of passes that begin over a sequence of inputs.
    pub open spec fn passes_begun(self, inputs: Seq<LoopInput>) -> nat
        decreases inputs.len(),
    {
        if inputs.len() == 0 {
            0
        } else {
            let earlier = self.passes_begun(inputs.drop_last());
            if self.last_directive(inputs) == Directive::RunPass {
                earlier + 1
            } else {
                earlier
            }
        }
    }

    /// A loop that polls every `interval_secs` seconds, and its first
    /// directive. The loop begins at an iteration boundary: where the
    /// cancellation flag is set on entry it leaves at once, without a wait
    /// and without a pass; where it is not, it waits for the first pass.
    pub fn start(interval_secs: u64, cancelled: bool) -> (r: (Supervisor, Directive))
        ensures
            r == Supervisor::entered(interval_secs, cancelled),
    {
        if cancelled {
            (Supervisor { phase: LoopPhase::Stopped, interval_secs, cancelled }, Directive::Exit)
        } else {
            (
                Supervisor { phase: LoopPhase::Waiting, interval_secs, cancelled },
                Directive::Wait(interval_secs),
            )
        }
    }

    /// A loop that polls at the default interval.
    pub fn start_default(cancelled: bool) -> (r: (Supervisor, Directive))
        ensures
            r == Supervisor::entered(DEFAULT_POLL_INTERVAL_SECS, cancelled),
    {
        Supervisor::start(DEFAULT_POLL_INTERVAL_SECS, cancelled)
    }

    /// Sets the cancellation flag. Nothing else changes: a pass that is in
    /// progress goes on.
    pub fn cancel(&mut self)
        ensures
            *final(self) == old(self).cancel_requested(),
    {
        self.cancelled = true;
    }

    /// Whether the cancellation flag is set.
    pub fn is_cancelled(&self) -> (r: bool)
        ensures
            r == self.cancelled,
    {
        self.cancelled
    }

    /// Whether the loop has ended.
    pub fn is_stopped(&self) -> (r: bool)
        ensures
            r == (self.phase is Stopped),
    {
        match self.phase {
            LoopPhase::Stopped => true,
            _ => false,
        }
    }

    /// Takes an event and says what to do next.
    pub fn step(&mut self, event: LoopEvent) -> (r: Directive)
        ensures
            (*final(self), r) == old(self).after(event),
    {
        match (self.phase, event) {
            (LoopPhase::Stopped, _) => Directive::Exit,
            (LoopPhase::Waiting, LoopEvent::IntervalElapsed) => {
                self.phase = LoopPhase::Reconciling;
                Directive::RunPass
            },
            (LoopPhase::Reconciling, LoopEvent::PassCompleted) => {
                if self.cancelled {
                    self.phase = LoopPhase::Stopped;
                    Directive::Exit
                } else {
                    self.phase = LoopPhase::Waiting;
                    Directive::Wait(self.interval_secs)
                }
            },
            _ => Directive::Continue,
        }
    }
}

/// Once the loop has stopped it stays stopped, whatever reaches it.
pub proof fn stopped_stays_stopped(s: Supervisor, inputs: Seq<LoopInput>)
    requires
        s.phase is Stopped,
    ensures
        s.run(inputs).phase is Stopped,
    decreases inputs.len(),
{
    if inputs.len() > 0 {
        stopped_stays_stopped(s, inputs.drop_last());
    }
}

/// Cancellation boundary. Once the loop has seen the cancellation flag at
/// an iteration boundary and stopped, no input makes a pass begin: every
/// directive from then on is to leave.
pub proof fn no_pass_begins_after_stop(s: Supervisor, inputs: Seq<LoopInput>)
    requires
        s.phase is Stopped,
        inputs.len() > 0,
    ensures
        s.last_directive(inputs) == Directive::Exit,
{
    stopped_stays_stopped(s, inputs.drop_last());
}

/// Cancellation boundary. Once the cancellation flag is set it stays set,
/// and the loop stops at the next iteration boundary: no pass begins where
/// the request came while a pass was in progress, and where it came during
/// the interval only the pass of that interval does.
pub proof fn cancellation_stops_the_loop_at_the_boundary(s: Supervisor, inputs: Seq<LoopInput>)
    requires
        s.cancelled,
    ensures
        s.run(inputs).cancelled,
        s.passes_begun(inputs) <= 1,
        !(s.phase is Waiting) ==> s.passes_begun(inputs) == 0,
        s.passes_begun(inputs) == 1 ==> !(s.run(inputs).phase is Waiting),
        !(s.phase is Waiting) ==> !(s.run(inputs).phase is Waiting),
        s.phase is Stopped ==> s.run(inputs).phase is Stopped,
    decreases inputs.len(),
{
    if inputs.len() > 0 {
        cancellation_stops_the_loop_at_the_boundary(s, inputs.drop_last());
    }
}

/// Cancellation boundary. A loop that is entered with the cancellation
/// flag set leaves at once: its first directive is to leave, and no pass
/// begins, whatever reaches it afterwards.
pub proof fn cancelled_on_entry_begins_no_pass(interval_secs: u64, inputs: Seq<LoopInput>)
    ensures
        Supervisor::entered(interval_secs, true).1 == Directive::Exit,
        Supervisor::entered(interval_secs, true).0.phase is Stopped,
        Supervisor::entered(interval_secs, true).0.passes_begun(inputs) == 0,
        Supervisor::entered(interval_secs, false).1 == Directive::Wait(interval_secs),
{
    cancellation_stops_the_loop_at_the_boundary(
        Supervisor::entered(interval_secs, true).0,
        inputs,
    );
}

/// Cancellation boundary. A pass in progress runs to completion: while the
/// loop is reconciling, nothing but the return of the pass moves it on, and
/// a request to stop in particular does not.
pub proof fn pass_in_progress_is_not_interrupted(s: Supervisor, input: LoopInput)
    requires
        s.phase is Reconciling,
        input != LoopInput::Event(LoopEvent::PassCompleted),
    ensures
        s.fed(input).0.phase is Reconciling,
        s.fed(input).1 == Directive::Continue,
{
}

/// Passes never overlap: a pass begins only when the interval is over,
/// and never while another is in progress.
pub proof fn passes_do_not_overlap(s: Supervisor, input: LoopInput)
    requires
        s.fed(input).1 == Directive::RunPass,
    ensures
        s.phase is Waiting,
        input == LoopInput::Event(LoopEvent::IntervalElapsed),
        s.fed(input).0.phase is Reconciling,
{
}

} // verus!
