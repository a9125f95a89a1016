use crate::date::NetworkTimestamp;
use vstd::prelude::*;

verus! {

/// The number of requests after which the acquisition gives up.
pub const MAX_ATTEMPTS: u32 = 4;

/// Seconds to wait after a request that failed.
pub const BACKOFF_SECONDS: u64 = 5;

/// What happened since the last action.
#[derive(Clone, Copy, Debug, PartialEq, Eq, Structural)]
pub enum Event {
    /// The request was answered with this timestamp.
    Response(NetworkTimestamp),
    /// The request failed.
    Failure,
    /// The wait is over.
    BackoffElapsed,
}

/// What is to be done next.
#[derive(Clone, Copy, Debug, PartialEq, Eq, Structural)]
pub enum Action {
    /// Send one request to the time server.
    Request,
    /// Wait for `BACKOFF_SECONDS` seconds.
    Backoff,
    /// The acquisition is over: this is the timestamp.
    Deliver(NetworkTimestamp),
    /// The acquisition is over: every attempt failed.
    Abort,
}

/// The state of an acquisition of the time: one request after the other, with
/// a wait after each that failed, until one is answered or the last one has
/// failed.
#[derive(Clone, Copy, Debug, PartialEq, Eq, Structural)]
pub enum Acquisition {
    /// A request is under way, after `failures` requests that failed.
    Requesting { failures: u32 },
    /// The wait after the request that was the `failures`-th to fail is under way.
    Waiting { failures: u32 },
    /// A request was answered.
    Done(NetworkTimestamp),
    /// Every attempt failed.
    Exhausted,
}

impl Acquisition {
    /// No more requests have failed than the acquisition makes, and none is
    /// under way after the last attempt.
    pub open spec fn wf(self) -> bool {
        match self {
            Acquisition::Requesting { failures } => failures < MAX_ATTEMPTS,
            Acquisition::Waiting { failures } => 1 <= failures <= MAX_ATTEMPTS,
            Acquisition::Done(_) => true,
            Acquisition::Exhausted => true,
        }
    }

    /// The action that the state waits on.
    pub open spec fn pending(self) -> Action {
        match self {
            Acquisition::Requesting { .. } => Action::Request,
            Acquisition::Waiting { .. } => Action::Backoff,
            Acquisition::Done(stamp) => Action::Deliver(stamp),
            Acquisition::Exhausted => Action::Abort,
        }
    }

    /// The state that follows `self` on `event`. An event that does not answer
    /// the pending action changes nothing.
    pub open spec fn after(self, event: Event) -> Acquisition {
        match (self, event) {
            (Acquisition::Requesting { .. }, Event::Response(stamp)) => Acquisition::Done(stamp),
            (Acquisition::Requesting { failures }, Event::Failure) => Acquisition::Waiting {
                failures: (failures + 1) as u32,
            },
            (Acquisition::Waiting { failures }, Event::BackoffElapsed) => if failures
                >= MAX_ATTEMPTS {
                Acquisition::Exhausted
            } else {
                Acquisition::Requesting { failures }
            },
            _ => self,
        }
    }

    /// The state that follows `self` on the events `events`, one after the other.
    pub open spec fn after_all(self, events: Seq<Event>) -> Acquisition
        decreases events.len(),
    {
        if events.len() == 0 {
            self
        } else {
            self.after_all(events.drop_last()).after(events.last())
        }
    }

    /// A new acquisition, and its first action: a request.
    pub fn start() -> (begun: (Acquisition, Action))
        ensures
            begun.0 == (Acquisition::Requesting { failures: 0 }),
            begun.1 == Action::Request,
    {
        (Acquisition::Requesting { failures: 0 }, Action::Request)
    }

    /// Takes in `event` and says what is to be done next.
    pub fn step(self, event: Event) -> (next: (Acquisition, Action))
        requires
            self.wf(),
        ensures
            next.0 == self.after(event),
            next.1 == next.0.pending(),
            next.0.wf(),
    {
        match (self, event) {
            (Acquisition::Requesting { .. }, Event::Response(stamp)) => (
                Acquisition::Done(stamp),
                Action::Deliver(stamp),
            ),
            (Acquisition::Requesting { failures }, Event::Failure) => (
                Acquisition::Waiting { failures: failures + 1 },
                Action::Backoff,
            ),
            (Acquisition::Waiting { failures }, Event::BackoffElapsed) => if failures
                >= MAX_ATTEMPTS {
                (Acquisition::Exhausted, Action::Abort)
            } else {
                (Acquisition::Requesting { failures }, Action::Request)
            },
            (Acquisition::Requesting { failures }, _) => (
                Acquisition::Requesting { failures },
                Action::Request,
            ),
            (Acquisition::Waiting { failures }, _) => (
                Acquisition::Waiting { failures },
                Action::Backoff,
            ),
            (Acquisition::Done(stamp), _) => (Acquisition::Done(stamp), Action::Deliver(stamp)),
            (Acquisition::Exhausted, _) => (Acquisition::Exhausted, Action::Abort),
        }
    }
}

/// The number of failed requests among `events`.
pub open spec fn failures_in(events: Seq<Event>) -> nat
    decreases events.len(),
{
    if events.len() == 0 {
        0
    } else {
        failures_in(events.drop_last()) + if events.last() == Event::Failure {
            1nat
        } else {
            0nat
        }
    }
}

/// The number of requests that failed on the way to `state`, as far as the
/// state still tells.
pub open spec fn failures_of(state: Acquisition) -> nat {
    match state {
        Acquisition::Requesting { failures } => failures as nat,
        Acquisition::Waiting { failures } => failures as nat,
        Acquisition::Done(_) => 0,
        Acquisition::Exhausted => MAX_ATTEMPTS as nat,
    }
}

/// Whatever happens, an acquisition stays well formed, it has counted no more
/// failures than happened, and it gives up only after `MAX_ATTEMPTS` requests
/// have failed.
pub proof fn lemma_gives_up_after_all_attempts(events: Seq<Event>)
    ensures
        (Acquisition::Requesting { failures: 0 }).after_all(events).wf(),
        failures_of((Acquisition::Requesting { failures: 0 }).after_all(events)) <= failures_in(
            events,
        ),
        (Acquisition::Requesting { failures: 0 }).after_all(events) == Acquisition::Exhausted
            ==> failures_in(events) >= MAX_ATTEMPTS,
    decreases events.len(),
{
    if events.len() > 0 {
        lemma_gives_up_after_all_attempts(events.drop_last());
    }
}

/// A timestamp is delivered only if a request was answered with it.
pub proof fn lemma_delivers_a_response(events: Seq<Event>, stamp: NetworkTimestamp)
    requires
        (Acquisition::Requesting { failures: 0 }).after_all(events) == Acquisition::Done(stamp),
    ensures
        events.contains(Event::Response(stamp)),
    decreases events.len(),
{
    if events.len() > 0 {
        let before = (Acquisition::Requesting { failures: 0 }).after_all(events.drop_last());
        if before == Acquisition::Done(stamp) {
            lemma_delivers_a_response(events.drop_last(), stamp);
            let i = choose|i: int|
                0 <= i < events.drop_last().len() && events.drop_last()[i] == Event::Response(
                    stamp,
                );
            assert(events[i] == Event::Response(stamp));
        } else {
            assert(events[events.len() - 1] == Event::Response(stamp));
        }
    }
}

} // verus!
