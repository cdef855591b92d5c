//! The scheduler loop: runs the reconciler at a fixed cadence, forever.
//!
//! Like the reconciler it makes no call and does not sleep. After every
//! cycle, whatever its outcome, it asks for the same fixed wait; a failure is
//! retried at the next tick and never ends the loop.

use vstd::prelude::*;
use crate::record::{Outcome, OutcomeModel, Target};
use crate::reconciler::{
    transition, Event, EventModel, PhaseModel, Reconciler, ReconcilerModel, Request,
    RequestModel, Step, StepModel,
};

verus! {

/// The cadence used where none is configured: five minutes.
pub const DEFAULT_INTERVAL_SECS: u64 = 300;

/// What the embedding program is to do next.
#[derive(Clone, Debug, PartialEq, Eq)]
pub enum Command {
    /// Perform this request and report its answer.
    Call(Request),
    /// The cycle ended in `outcome`: report it, wait `seconds`, then report
    /// [`Event::Start`].
    Wait { outcome: Outcome, seconds: u64 },
}

/// Model of a [`Command`].
pub enum CommandModel {
    Call(RequestModel),
    Wait { outcome: OutcomeModel, seconds: u64 },
}

impl View for Command {
    type V = CommandModel;

    open spec fn view(&self) -> CommandModel {
        match self {
            Command::Call(request) => CommandModel::Call(request@),
            Command::Wait { outcome, seconds } => CommandModel::Wait {
                outcome: outcome@,
                seconds: *seconds,
            },
        }
    }
}

/// The view of an optional command.
pub open spec fn command_model(command: Option<Command>) -> Option<CommandModel> {
    match command {
        Some(c) => Some(c@),
        None => None,
    }
}

/// Model of a [`Scheduler`]: the reconciler it drives and the wait between
/// cycles, in seconds.
pub struct SchedulerModel {
    pub reconciler: ReconcilerModel,
    pub interval_secs: u64,
}

/// The cadence that a configuration asks for.
pub open spec fn configured_interval(interval_secs: Option<u64>) -> u64 {
    match interval_secs {
        Some(seconds) => seconds,
        None => DEFAULT_INTERVAL_SECS,
    }
}

/// The command that passes a reconciler's step on: a request is performed, an
/// outcome of any kind is followed by the fixed wait.
pub open spec fn command_for(step: StepModel, interval_secs: u64) -> CommandModel {
    match step {
        StepModel::Call(request) => CommandModel::Call(request),
        StepModel::Done(outcome) => CommandModel::Wait { outcome, seconds: interval_secs },
    }
}

/// The scheduler's transition relation: the reconciler's, with the cadence
/// carried along unchanged.
pub open spec fn schedule(s: SchedulerModel, e: EventModel) -> Option<
    (SchedulerModel, CommandModel),
> {
    match transition(s.reconciler, e) {
        Some((next, step)) => Some(
            (SchedulerModel { reconciler: next, ..s }, command_for(step, s.interval_secs)),
        ),
        None => None,
    }
}

/// The loop's state: a reconciler and the cadence.
#[derive(Clone, Debug, PartialEq, Eq)]
pub struct Scheduler {
    reconciler: Reconciler,
    interval_secs: u64,
}

impl View for Scheduler {
    type V = SchedulerModel;

    closed spec fn view(&self) -> SchedulerModel {
        SchedulerModel { reconciler: self.reconciler@, interval_secs: self.interval_secs }
    }
}

impl Scheduler {
    /// A scheduler for `target` with no address applied yet, idle, waiting
    /// `interval_secs` between cycles, or five minutes where that is `None`.
    pub fn new(target: Target, interval_secs: Option<u64>) -> (s: Scheduler)
        ensures
            s@ == (SchedulerModel {
                reconciler: ReconcilerModel {
                    target: target@,
                    observed: None,
                    phase: PhaseModel::Idle,
                },
                interval_secs: configured_interval(interval_secs),
            }),
    {
        let seconds: u64 = match interval_secs {
            Some(seconds) => seconds,
            None => DEFAULT_INTERVAL_SECS,
        };
        Scheduler { reconciler: Reconciler::new(target), interval_secs: seconds }
    }

    /// The wait between cycles, in seconds.
    pub fn interval_secs(&self) -> (seconds: u64)
        ensures
            seconds == self@.interval_secs,
    {
        self.interval_secs
    }

    /// The reconciler being driven.
    pub fn reconciler(&self) -> (r: &Reconciler)
        ensures
            r@ == self@.reconciler,
    {
        &self.reconciler
    }

    /// Takes one event and says what the embedding program is to do next.
    ///
    /// [`Event::Start`] is the tick: report it at startup and after each wait.
    /// An event that does not answer what the loop is waiting for is refused:
    /// the result is `None` and nothing changes.
    pub fn advance(&mut self, event: Event) -> (result: Option<Command>)
        ensures
            match schedule(old(self)@, event@) {
                Some((next, command)) => final(self)@ == next && command_model(result) == Some(
                    command,
                ),
                None => final(self)@ == old(self)@ && result.is_none(),
            },
    {
        match self.reconciler.step(event) {
            Some(Step::Call(request)) => Some(Command::Call(request)),
            Some(Step::Done(outcome)) => Some(
                Command::Wait { outcome, seconds: self.interval_secs },
            ),
            None => None,
        }
    }
}

} // verus!
