//! The send policy: send the request; if the gateway rejects it in a way
//! consistent with a key rotation, refetch the key configuration, and send
//! once more only if the configuration changed. At most two attempts, no
//! backoff; when the refetch fails or brings the same key, the caller gets
//! the request's own error, not the recovery's.
//!
//! The policy is a state machine: the caller performs each action (an
//! attempt, a refetch) and feeds back what came of it.

use vstd::prelude::*;
use crate::error::ClientError;
use crate::response::Response;

verus! {

/// Where a send stands.
pub enum SendState {
    /// The first attempt is under way.
    FirstAttempt,
    /// The first attempt failed with this error, consistent with a key
    /// rotation; the key configuration is being refetched.
    Refreshing(ClientError),
    /// The key configuration changed; the second and last attempt is under
    /// way.
    SecondAttempt,
    /// The send is over.
    Finished,
}

/// What the caller reports back.
pub enum SendEvent {
    /// An attempt ended with this outcome.
    Attempted(Result<Response, ClientError>),
    /// The refetch ended: whether the configuration changed, or an error.
    Refreshed(Result<bool, ClientError>),
}

/// What the caller does next.
pub enum SendAction {
    /// Encapsulate, send and decapsulate the request.
    Attempt,
    /// Refetch the key configuration and adopt it.
    Refresh,
    /// Hand this outcome to the caller of `send`.
    Complete(Result<Response, ClientError>),
}

/// The event is the one the state waits for: an attempt's outcome while an
/// attempt is under way, the refetch's while refetching.
pub open spec fn awaits(state: SendState, event: SendEvent) -> bool {
    match state {
        SendState::FirstAttempt => event is Attempted,
        SendState::SecondAttempt => event is Attempted,
        SendState::Refreshing(_) => event is Refreshed,
        SendState::Finished => false,
    }
}

/// The event reports back on the action: an attempt's outcome after
/// `Attempt`, the refetch's after `Refresh`; nothing follows `Complete`.
pub open spec fn answers(action: SendAction, event: SendEvent) -> bool {
    match action {
        SendAction::Attempt => event is Attempted,
        SendAction::Refresh => event is Refreshed,
        SendAction::Complete(_) => false,
    }
}

/// One step of the policy.
pub open spec fn spec_send_step(state: SendState, event: SendEvent) -> (SendState, SendAction) {
    match (state, event) {
        (SendState::FirstAttempt, SendEvent::Attempted(Ok(response))) => (
            SendState::Finished,
            SendAction::Complete(Ok(response)),
        ),
        (SendState::FirstAttempt, SendEvent::Attempted(Err(error))) => if error.spec_is_possibly_stale_key() {
            (SendState::Refreshing(error), SendAction::Refresh)
        } else {
            (SendState::Finished, SendAction::Complete(Err(error)))
        },
        (SendState::Refreshing(error), SendEvent::Refreshed(Ok(true))) => (
            SendState::SecondAttempt,
            SendAction::Attempt,
        ),
        (SendState::Refreshing(error), SendEvent::Refreshed(_)) => (
            SendState::Finished,
            SendAction::Complete(Err(error)),
        ),
        (SendState::SecondAttempt, SendEvent::Attempted(outcome)) => (
            SendState::Finished,
            SendAction::Complete(outcome),
        ),
        (s, _) => (s, SendAction::Refresh),
    }
}

/// The start of a send: the first attempt.
pub fn send_start() -> (r: (SendState, SendAction))
    ensures
        r.0 is FirstAttempt,
        r.1 is Attempt,
        forall|e: SendEvent| awaits(r.0, e) <==> #[trigger] answers(r.1, e),
{
    (SendState::FirstAttempt, SendAction::Attempt)
}

/// The next state and action, given what came of the last action.
pub fn send_step(state: SendState, event: SendEvent) -> (r: (SendState, SendAction))
    requires
        awaits(state, event),
    ensures
        r == spec_send_step(state, event),
        forall|e: SendEvent| awaits(r.0, e) <==> #[trigger] answers(r.1, e),
{
    match (state, event) {
        (SendState::FirstAttempt, SendEvent::Attempted(Ok(response))) => (
            SendState::Finished,
            SendAction::Complete(Ok(response)),
        ),
        (SendState::FirstAttempt, SendEvent::Attempted(Err(error))) => {
            if error.is_possibly_stale_key() {
                (SendState::Refreshing(error), SendAction::Refresh)
            } else {
                (SendState::Finished, SendAction::Complete(Err(error)))
            }
        },
        (SendState::Refreshing(error), SendEvent::Refreshed(Ok(true))) => (
            SendState::SecondAttempt,
            SendAction::Attempt,
        ),
        (SendState::Refreshing(error), SendEvent::Refreshed(_)) => (
            SendState::Finished,
            SendAction::Complete(Err(error)),
        ),
        (SendState::SecondAttempt, SendEvent::Attempted(outcome)) => (
            SendState::Finished,
            SendAction::Complete(outcome),
        ),
        (s, _) => (s, SendAction::Refresh),
    }
}

/// The actions that a sequence of events draws from `state`, up to the
/// first event that the state does not await.
pub open spec fn actions_of_run(state: SendState, events: Seq<SendEvent>) -> Seq<SendAction>
    decreases events.len(),
{
    if events.len() == 0 || !awaits(state, events[0]) {
        seq![]
    } else {
        let (next, action) = spec_send_step(state, events[0]);
        seq![action] + actions_of_run(next, events.drop_first())
    }
}

/// The number of attempts among `actions`.
pub open spec fn attempts(actions: Seq<SendAction>) -> nat
    decreases actions.len(),
{
    if actions.len() == 0 {
        0
    } else {
        (if actions[0] is Attempt {
            1nat
        } else {
            0nat
        }) + attempts(actions.drop_first())
    }
}

/// The attempts still possible from a state, the one under way included.
pub open spec fn attempts_left(state: SendState) -> nat {
    match state {
        SendState::FirstAttempt => 1,
        SendState::Refreshing(_) => 1,
        SendState::SecondAttempt => 0,
        SendState::Finished => 0,
    }
}

proof fn lemma_run_attempts(state: SendState, events: Seq<SendEvent>)
    ensures
        attempts(actions_of_run(state, events)) <= attempts_left(state),
    decreases events.len(),
{
    if events.len() > 0 && awaits(state, events[0]) {
        let (next, action) = spec_send_step(state, events[0]);
        lemma_run_attempts(next, events.drop_first());
        let acts = actions_of_run(state, events);
        assert(acts.drop_first() =~= actions_of_run(next, events.drop_first()));
    }
}

/// A send makes at most two attempts: the first, and one more after a
/// refetch, whatever the attempts and the refetch report.
pub proof fn lemma_at_most_two_attempts(events: Seq<SendEvent>)
    ensures
        1 + attempts(actions_of_run(SendState::FirstAttempt, events)) <= 2,
{
    lemma_run_attempts(SendState::FirstAttempt, events);
}

proof fn lemma_complete_ends_run(state: SendState, events: Seq<SendEvent>)
    ensures
        forall|i: int|
            0 <= i < actions_of_run(state, events).len() && (#[trigger] actions_of_run(
                state,
                events,
            )[i]) is Complete ==> i == actions_of_run(state, events).len() - 1,
    decreases events.len(),
{
    if events.len() > 0 && awaits(state, events[0]) {
        let (next, action) = spec_send_step(state, events[0]);
        lemma_complete_ends_run(next, events.drop_first());
        let rest = actions_of_run(next, events.drop_first());
        let acts = actions_of_run(state, events);
        assert(acts == seq![action] + rest);
        if action is Complete {
            assert(next is Finished);
            assert(rest.len() == 0);
        }
        assert forall|i: int| 0 <= i < acts.len() && (#[trigger] acts[i]) is Complete implies i
            == acts.len() - 1 by {
            if i > 0 {
                assert(acts[i] == rest[i - 1]);
            }
        }
    }
}

/// A send hands exactly one outcome to its caller, and nothing follows it:
/// a `Complete` action is always the last one of a run.
pub proof fn lemma_outcome_is_last(events: Seq<SendEvent>, i: int)
    requires
        0 <= i < actions_of_run(SendState::FirstAttempt, events).len(),
        actions_of_run(SendState::FirstAttempt, events)[i] is Complete,
    ensures
        i == actions_of_run(SendState::FirstAttempt, events).len() - 1,
{
    lemma_complete_ends_run(SendState::FirstAttempt, events);
}

/// The key configuration is refetched only after the first attempt failed
/// with an error consistent with a key rotation (a 400 or a 401).
pub proof fn lemma_refresh_only_after_stale_key(state: SendState, event: SendEvent)
    requires
        awaits(state, event),
        spec_send_step(state, event).1 is Refresh,
    ensures
        state is FirstAttempt,
        event matches SendEvent::Attempted(Err(e)) && e.spec_is_possibly_stale_key(),
{
}

/// Responses are never withheld, altered or made up: a step on a response
/// from an attempt (first or second) ends the send and hands the caller
/// that very response, whatever its status; and a step that hands the
/// caller a response got that very response from an attempt.
pub proof fn lemma_responses_reach_the_caller_unchanged(state: SendState, event: SendEvent)
    requires
        awaits(state, event),
    ensures
        event matches SendEvent::Attempted(Ok(resp)) ==> spec_send_step(state, event) == (
            SendState::Finished,
            SendAction::Complete(Ok(resp)),
        ),
        spec_send_step(state, event).1 matches SendAction::Complete(Ok(resp)) ==> event
            == SendEvent::Attempted(Ok(resp)),
{
}

/// An error that says nothing about keys reaches the caller at once, as it
/// is.
pub proof fn lemma_other_errors_surface(error: ClientError)
    requires
        !error.spec_is_possibly_stale_key(),
    ensures
        spec_send_step(SendState::FirstAttempt, SendEvent::Attempted(Err(error))) == (
            SendState::Finished,
            SendAction::Complete(Err(error)),
        ),
{
}

/// When the refetch fails or brings the same key, the caller gets the first
/// attempt's error, not the refetch's.
pub proof fn lemma_failed_refresh_reports_original_error(
    error: ClientError,
    refreshed: Result<bool, ClientError>,
)
    requires
        !(refreshed matches Ok(true)),
    ensures
        spec_send_step(SendState::Refreshing(error), SendEvent::Refreshed(refreshed)) == (
            SendState::Finished,
            SendAction::Complete(Err(error)),
        ),
{
}

/// After a successful refetch that changed the key, the second attempt's
/// outcome, whatever it is, is what the caller gets.
pub proof fn lemma_second_attempt_is_final(outcome: Result<Response, ClientError>)
    ensures
        spec_send_step(SendState::SecondAttempt, SendEvent::Attempted(outcome)) == (
            SendState::Finished,
            SendAction::Complete(outcome),
        ),
{
}

/// Each step leaves the policy waiting for exactly the event that reports
/// back on the action it returns: performing the action and handing back
/// what came of it always meets `awaits`.
pub proof fn lemma_action_is_what_next_state_awaits(state: SendState, event: SendEvent)
    requires
        awaits(state, event),
    ensures
        forall|e: SendEvent|
            awaits(spec_send_step(state, event).0, e) <==> #[trigger] answers(
                spec_send_step(state, event).1,
                e,
            ),
{
}

/// The number of refetches among `actions`.
pub open spec fn refreshes(actions: Seq<SendAction>) -> nat
    decreases actions.len(),
{
    if actions.len() == 0 {
        0
    } else {
        (if actions[0] is Refresh {
            1nat
        } else {
            0nat
        }) + refreshes(actions.drop_first())
    }
}

/// The refetches still possible from a state.
pub open spec fn refreshes_left(state: SendState) -> nat {
    match state {
        SendState::FirstAttempt => 1,
        SendState::Refreshing(_) => 0,
        SendState::SecondAttempt => 0,
        SendState::Finished => 0,
    }
}

proof fn lemma_run_refreshes(state: SendState, events: Seq<SendEvent>)
    ensures
        refreshes(actions_of_run(state, events)) <= refreshes_left(state),
    decreases events.len(),
{
    if events.len() > 0 && awaits(state, events[0]) {
        let (next, action) = spec_send_step(state, events[0]);
        lemma_run_refreshes(next, events.drop_first());
        let acts = actions_of_run(state, events);
        assert(acts.drop_first() =~= actions_of_run(next, events.drop_first()));
    }
}

/// A send refetches the key configuration at most once, whatever the
/// attempts and the refetch report.
pub proof fn lemma_at_most_one_refresh(events: Seq<SendEvent>)
    ensures
        refreshes(actions_of_run(SendState::FirstAttempt, events)) <= 1,
{
    lemma_run_refreshes(SendState::FirstAttempt, events);
}

} // verus!
