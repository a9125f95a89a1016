use ntp_clock::acquire::{Acquisition, Action, Event, BACKOFF_SECONDS, MAX_ATTEMPTS};
use ntp_clock::date::NetworkTimestamp;

const STAMP: NetworkTimestamp = NetworkTimestamp { seconds: 3913153445, fraction: 25769804 };

// Plays the part of the program: answers each request with the next outcome.
fn drive(outcomes: &[Option<NetworkTimestamp>]) -> (Vec<Action>, Acquisition) {
    let (mut state, mut action) = Acquisition::start();
    let mut actions = vec![action];
    let mut next = 0;
    loop {
        let event = match action {
            Action::Request => {
                let outcome = outcomes[next];
                next += 1;
                match outcome {
                    Some(stamp) => Event::Response(stamp),
                    None => Event::Failure,
                }
            }
            Action::Backoff => Event::BackoffElapsed,
            Action::Deliver(_) | Action::Abort => return (actions, state),
        };
        (state, action) = state.step(event);
        actions.push(action);
    }
}

#[test]
fn first_answer_is_delivered_at_once() {
    let (actions, state) = drive(&[Some(STAMP)]);
    assert_eq!(actions, vec![Action::Request, Action::Deliver(STAMP)]);
    assert_eq!(state, Acquisition::Done(STAMP));
}

#[test]
fn failure_is_followed_by_a_wait_and_another_request() {
    let (actions, state) = drive(&[None, None, Some(STAMP)]);
    assert_eq!(
        actions,
        vec![
            Action::Request,
            Action::Backoff,
            Action::Request,
            Action::Backoff,
            Action::Request,
            Action::Deliver(STAMP),
        ]
    );
    assert_eq!(state, Acquisition::Done(STAMP));
}

#[test]
fn last_attempt_can_still_succeed() {
    let (actions, state) = drive(&[None, None, None, Some(STAMP)]);
    assert_eq!(actions.iter().filter(|a| **a == Action::Request).count(), 4);
    assert_eq!(actions.last(), Some(&Action::Deliver(STAMP)));
    assert_eq!(state, Acquisition::Done(STAMP));
}

#[test]
fn four_failures_abort_exactly_once() {
    let (actions, state) = drive(&[None, None, None, None, Some(STAMP)]);
    assert_eq!(
        actions,
        vec![
            Action::Request,
            Action::Backoff,
            Action::Request,
            Action::Backoff,
            Action::Request,
            Action::Backoff,
            Action::Request,
            Action::Backoff,
            Action::Abort,
        ]
    );
    assert_eq!(actions.iter().filter(|a| **a == Action::Abort).count(), 1);
    assert!(!actions.iter().any(|a| matches!(a, Action::Deliver(_))));
    assert_eq!(state, Acquisition::Exhausted);
}

#[test]
fn limits_are_four_attempts_and_five_seconds() {
    assert_eq!(MAX_ATTEMPTS, 4);
    assert_eq!(BACKOFF_SECONDS, 5);
}

#[test]
fn events_out_of_turn_change_nothing() {
    let (state, _) = Acquisition::start();
    assert_eq!(state.step(Event::BackoffElapsed), (state, Action::Request));
    let (waiting, action) = state.step(Event::Failure);
    assert_eq!(waiting, Acquisition::Waiting { failures: 1 });
    assert_eq!(action, Action::Backoff);
    assert_eq!(waiting.step(Event::Failure), (waiting, Action::Backoff));
    assert_eq!(waiting.step(Event::Response(STAMP)), (waiting, Action::Backoff));
    let done = Acquisition::Done(STAMP);
    assert_eq!(done.step(Event::Failure), (done, Action::Deliver(STAMP)));
    assert_eq!(done.step(Event::BackoffElapsed), (done, Action::Deliver(STAMP)));
    let spent = Acquisition::Exhausted;
    assert_eq!(spent.step(Event::Response(STAMP)), (spent, Action::Abort));
    assert_eq!(spent.step(Event::BackoffElapsed), (spent, Action::Abort));
}
