//! Driving a result to its settled value.
//!
//! The result of a script may be a promise. The driver says, step by step,
//! what to ask of the engine until the result has settled: it is a function
//! from the driver's state and what the engine reported to the next state
//! and the next thing to do. Whoever holds the engine runs the loop.
use vstd::prelude::*;
use crate::tag::{TAG_EXCEPTION, TAG_OBJECT};

verus! {

/// Where the driver stands.
#[derive(PartialEq, Eq, Clone, Copy, Debug, Structural)]
pub enum DriverState {
    /// A value is under resolution and has not been looked at yet.
    Start,
    /// The value is a promise; handlers are being attached to it.
    Attaching,
    /// The promise is pending; a job of the engine has been asked for.
    Pending,
    /// No job ran; expired timers are being fired.
    Draining,
    /// The marks that the handlers leave are being read.
    Checking,
    /// The value has settled, but timers are still waiting.
    Lingering,
    /// The value under resolution is the result.
    Done,
    /// There is no result; the last action says which error to report.
    Failed,
}

/// How a promise stands, as the marks of its handlers tell.
#[derive(PartialEq, Eq, Clone, Copy, Debug, Structural)]
pub enum Settlement {
    Unsettled,
    Fulfilled,
    Rejected,
}

/// What the engine reported.
#[derive(PartialEq, Eq, Clone, Copy, Debug, Structural)]
pub enum DriverEvent {
    /// The value under resolution was looked at.
    Inspected { is_exception: bool, is_object: bool, is_promise: bool },
    /// Handlers were attached to the promise, or could not be.
    Attached(bool),
    /// The engine was asked to run one pending job: negative where the job
    /// threw, positive where a job ran, zero where there was none.
    JobRan(i32),
    /// Expired timers were fired; tells whether any timer remains.
    TimersDrained(bool),
    /// The marks of the handlers were read.
    Sentinel(Settlement),
}

/// What to do next.
#[derive(PartialEq, Eq, Clone, Copy, Debug, Structural)]
pub enum DriverAction {
    /// Look at the value under resolution.
    Inspect,
    /// Attach handlers for success and failure to the promise.
    Attach,
    /// Ask the engine to run one pending job.
    RunJob,
    /// Fire the timers that have expired.
    DrainTimers,
    /// Read the marks that the handlers leave.
    ReadSentinel,
    /// Take the value that the promise carried as the value under
    /// resolution, and look at it.
    InspectCarried,
    /// The value under resolution is the result.
    Finish,
    /// Report the exception that the engine holds.
    FailWithException,
    /// Report the reason with which the promise was rejected.
    FailWithReason,
    /// Report the error that attaching handlers gave, or that the events
    /// came out of order.
    Abort,
}

/// The state and the action that follow a state and an event.
pub open spec fn next(state: DriverState, event: DriverEvent) -> (DriverState, DriverAction) {
    match (state, event) {
        (DriverState::Start, DriverEvent::Inspected { is_exception, is_object, is_promise }) =>
            if is_exception {
                (DriverState::Failed, DriverAction::FailWithException)
            } else if is_object && is_promise {
                (DriverState::Attaching, DriverAction::Attach)
            } else {
                (DriverState::Lingering, DriverAction::DrainTimers)
            },
        (DriverState::Attaching, DriverEvent::Attached(ok)) => if ok {
            (DriverState::Pending, DriverAction::RunJob)
        } else {
            (DriverState::Failed, DriverAction::Abort)
        },
        (DriverState::Pending, DriverEvent::JobRan(flag)) => if flag < 0 {
            (DriverState::Failed, DriverAction::FailWithException)
        } else if flag > 0 {
            (DriverState::Pending, DriverAction::RunJob)
        } else {
            (DriverState::Draining, DriverAction::DrainTimers)
        },
        (DriverState::Draining, DriverEvent::TimersDrained(_)) => (
            DriverState::Checking,
            DriverAction::ReadSentinel,
        ),
        (DriverState::Checking, DriverEvent::Sentinel(settlement)) => match settlement {
            Settlement::Fulfilled => (DriverState::Start, DriverAction::InspectCarried),
            Settlement::Rejected => (DriverState::Failed, DriverAction::FailWithReason),
            Settlement::Unsettled => (DriverState::Pending, DriverAction::RunJob),
        },
        (DriverState::Lingering, DriverEvent::TimersDrained(remaining)) => if remaining {
            (DriverState::Lingering, DriverAction::DrainTimers)
        } else {
            (DriverState::Done, DriverAction::Finish)
        },
        (DriverState::Done, _) => (DriverState::Done, DriverAction::Finish),
        _ => (DriverState::Failed, DriverAction::Abort),
    }
}

/// Whether a state is terminal.
pub open spec fn is_terminal(state: DriverState) -> bool {
    state == DriverState::Done || state == DriverState::Failed
}

/// The state in which the driver is after a sequence of events.
pub open spec fn state_after(state: DriverState, events: Seq<DriverEvent>) -> DriverState
    decreases events.len(),
{
    if events.len() == 0 {
        state
    } else {
        next(state_after(state, events.drop_last()), events.last()).0
    }
}

/// One round of polling in which nothing happens: no job ran, no timer is
/// left, and the promise has not settled.
pub open spec fn idle_round() -> Seq<DriverEvent> {
    seq![
        DriverEvent::JobRan(0),
        DriverEvent::TimersDrained(false),
        DriverEvent::Sentinel(Settlement::Unsettled),
    ]
}

/// `rounds` idle rounds, one after the other.
pub open spec fn idle_rounds(rounds: nat) -> Seq<DriverEvent>
    decreases rounds,
{
    if rounds == 0 {
        Seq::empty()
    } else {
        idle_rounds((rounds - 1) as nat) + idle_round()
    }
}

impl DriverState {
    /// The state in which the driver begins, and its first action.
    pub fn begin() -> (r: (DriverState, DriverAction))
        ensures
            r == (DriverState::Start, DriverAction::Inspect),
    {
        (DriverState::Start, DriverAction::Inspect)
    }

    /// Whether the driver has come to an end.
    pub fn is_terminal(&self) -> (b: bool)
        ensures
            b == is_terminal(*self),
    {
        matches!(self, DriverState::Done | DriverState::Failed)
    }

    /// Takes what the engine reported and says where the driver stands now
    /// and what to do next.
    pub fn step(self, event: DriverEvent) -> (r: (DriverState, DriverAction))
        ensures
            r == next(self, event),
    {
        match (self, event) {
            (DriverState::Start, DriverEvent::Inspected { is_exception, is_object, is_promise }) => {
                if is_exception {
                    (DriverState::Failed, DriverAction::FailWithException)
                } else if is_object && is_promise {
                    (DriverState::Attaching, DriverAction::Attach)
                } else {
                    (DriverState::Lingering, DriverAction::DrainTimers)
                }
            },
            (DriverState::Attaching, DriverEvent::Attached(ok)) => {
                if ok {
                    (DriverState::Pending, DriverAction::RunJob)
                } else {
                    (DriverState::Failed, DriverAction::Abort)
                }
            },
            (DriverState::Pending, DriverEvent::JobRan(flag)) => {
                if flag < 0 {
                    (DriverState::Failed, DriverAction::FailWithException)
                } else if flag > 0 {
                    (DriverState::Pending, DriverAction::RunJob)
                } else {
                    (DriverState::Draining, DriverAction::DrainTimers)
                }
            },
            (DriverState::Draining, DriverEvent::TimersDrained(_)) => (
                DriverState::Checking,
                DriverAction::ReadSentinel,
            ),
            (DriverState::Checking, DriverEvent::Sentinel(settlement)) => match settlement {
                Settlement::Fulfilled => (DriverState::Start, DriverAction::InspectCarried),
                Settlement::Rejected => (DriverState::Failed, DriverAction::FailWithReason),
                Settlement::Unsettled => (DriverState::Pending, DriverAction::RunJob),
            },
            (DriverState::Lingering, DriverEvent::TimersDrained(remaining)) => {
                if remaining {
                    (DriverState::Lingering, DriverAction::DrainTimers)
                } else {
                    (DriverState::Done, DriverAction::Finish)
                }
            },
            (DriverState::Done, _) => (DriverState::Done, DriverAction::Finish),
            _ => (DriverState::Failed, DriverAction::Abort),
        }
    }
}

/// What looking at the value under resolution tells the driver. The tag
/// tells whether the value is the marker of an exception or an object; an
/// object is a promise where `then` or `catch` can be called on it.
pub fn inspected(tag: i64, then_is_function: bool, catch_is_function: bool) -> (event: DriverEvent)
    ensures
        event == (DriverEvent::Inspected {
            is_exception: tag == TAG_EXCEPTION,
            is_object: tag == TAG_OBJECT,
            is_promise: tag == TAG_OBJECT && (then_is_function || catch_is_function),
        }),
{
    let is_object = tag == TAG_OBJECT;
    DriverEvent::Inspected {
        is_exception: tag == TAG_EXCEPTION,
        is_object,
        is_promise: is_object && crate::object::is_promise(then_is_function, catch_is_function),
    }
}

/// How the marks of the handlers read: the mark is a boolean once the
/// promise has settled, true for success and false for failure.
pub fn read_sentinel(mark: Option<bool>) -> (settlement: Settlement)
    ensures
        settlement == (match mark {
            Some(true) => Settlement::Fulfilled,
            Some(false) => Settlement::Rejected,
            None => Settlement::Unsettled,
        }),
{
    match mark {
        Some(true) => Settlement::Fulfilled,
        Some(false) => Settlement::Rejected,
        None => Settlement::Unsettled,
    }
}

/// A terminal state is never left.
pub proof fn lemma_terminal_states_stay(state: DriverState, events: Seq<DriverEvent>)
    requires
        is_terminal(state),
    ensures
        state_after(state, events) == state,
    decreases events.len(),
{
    if events.len() > 0 {
        lemma_terminal_states_stay(state, events.drop_last());
    }
}

/// A job that threw ends the driver in failure, whatever comes after.
pub proof fn lemma_failed_job_fails(flag: i32, events: Seq<DriverEvent>)
    requires
        flag < 0,
    ensures
        next(DriverState::Pending, DriverEvent::JobRan(flag)) == (
            DriverState::Failed,
            DriverAction::FailWithException,
        ),
        state_after(next(DriverState::Pending, DriverEvent::JobRan(flag)).0, events)
            == DriverState::Failed,
{
    lemma_terminal_states_stay(DriverState::Failed, events);
}

/// A pending promise with nothing left to do never settles: after any
/// number of idle rounds the driver is still pending and asks for a job
/// again. There is no timeout.
pub proof fn lemma_unsettled_promise_keeps_polling(rounds: nat)
    ensures
        state_after(DriverState::Pending, idle_rounds(rounds)) == DriverState::Pending,
    decreases rounds,
{
    if rounds > 0 {
        let before = idle_rounds((rounds - 1) as nat);
        lemma_unsettled_promise_keeps_polling((rounds - 1) as nat);
        let e1 = before.push(DriverEvent::JobRan(0));
        let e2 = e1.push(DriverEvent::TimersDrained(false));
        let e3 = e2.push(DriverEvent::Sentinel(Settlement::Unsettled));
        assert(e3 =~= idle_rounds(rounds));
        assert(e1.drop_last() =~= before);
        assert(e2.drop_last() =~= e1);
        assert(e3.drop_last() =~= e2);
        assert(state_after(DriverState::Pending, e1) == DriverState::Draining);
        assert(state_after(DriverState::Pending, e2) == DriverState::Checking);
    }
}

} // verus!
