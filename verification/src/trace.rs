//! Whole calls: what a call does over a sequence of events, and what holds
//! of every such sequence.

use vstd::prelude::*;
use crate::challenge::{AuthError, AuthErrorKind, AuthErrorView};
use crate::credentials::CredentialsView;
use crate::extractors::{extracted, has_authorization, lemma_missing_header, ConfigView};
use crate::middleware::{next, ActionView, CallState, Event};
use crate::request::Request;

verus! {

/// The state of a call that was in `state` and then saw `events`, one after
/// the other, and the actions it asked for, one for each event.
pub open spec fn run<C, H>(config: ConfigView, state: CallState<C>, events: Seq<Event<C, H>>) -> (
    CallState<C>,
    Seq<ActionView<C, H>>,
)
    decreases events.len(),
{
    if events.len() == 0 {
        (state, Seq::empty())
    } else {
        let (mid, action) = next(config, state, events.first());
        let (end, rest) = run(config, mid, events.drop_first());
        (end, seq![action] + rest)
    }
}

/// The events of a call that goes all the way: the request arrives, the
/// validator gives back `validated`, the handler is granted, takes the
/// request and answers `response`.
pub open spec fn accepted<C, H>(request: Request<C>, validated: Request<C>, response: H) -> Seq<
    Event<C, H>,
> {
    seq![
        Event::Received(request),
        Event::Validated(Ok(validated)),
        Event::HandlerAcquired,
        Event::Dispatched,
        Event::Responded(response),
    ]
}

/// Whether `event` is a reason to reject with `error`: a request arrived
/// without usable credentials, which gives `MissingHeader` or `InvalidFormat`
/// with the challenge of the configuration, or the validator declined with
/// `error`.
pub open spec fn rejects<C, H>(config: ConfigView, event: Event<C, H>, error: AuthErrorView) -> bool {
    match event {
        Event::Received(request) => {
            &&& extracted(request.headers@, config.scheme) == Err::<CredentialsView, AuthErrorKind>(
                error.kind,
            )
            &&& error.kind == AuthErrorKind::MissingHeader || error.kind
                == AuthErrorKind::InvalidFormat
            &&& error.challenge == config.challenge()
        },
        Event::Validated(Err(declined)) => declined@ == error,
        _ => false,
    }
}

/// A call asks for one action for each event.
pub proof fn lemma_run_len<C, H>(config: ConfigView, state: CallState<C>, events: Seq<Event<C, H>>)
    ensures
        run(config, state, events).1.len() == events.len(),
    decreases events.len(),
{
    if events.len() > 0 {
        lemma_run_len(config, next(config, state, events.first()).0, events.drop_first());
    }
}

/// A call that is over stays as it is and asks for nothing, whatever happens.
pub proof fn lemma_final_state_is_silent<C, H>(
    config: ConfigView,
    state: CallState<C>,
    events: Seq<Event<C, H>>,
)
    requires
        state.is_final(),
    ensures
        run(config, state, events).0 == state,
        run(config, state, events).1.len() == events.len(),
        forall|k: int|
            0 <= k < events.len() ==> #[trigger] run(config, state, events).1[k]
                == ActionView::<C, H>::Nothing,
    decreases events.len(),
{
    if events.len() > 0 {
        lemma_final_state_is_silent(config, state, events.drop_first());
    }
}

/// A request without an `Authorization` header is rejected with
/// `MissingHeader` and the challenge of the configuration, and the call asks
/// for nothing after that: neither the validator nor the handler is ever
/// called for it.
pub proof fn lemma_missing_header_rejects<C, H>(
    config: ConfigView,
    request: Request<C>,
    events: Seq<Event<C, H>>,
)
    requires
        !has_authorization(request.headers@),
    ensures
        ({
            let (end, actions) = run(
                config,
                CallState::Extracting,
                seq![Event::Received(request)] + events,
            );
            &&& end == CallState::<C>::Rejected
            &&& actions.len() == events.len() + 1
            &&& actions[0] == ActionView::<C, H>::Reject(
                AuthErrorView { kind: AuthErrorKind::MissingHeader, challenge: config.challenge() },
            )
            &&& forall|k: int|
                1 <= k <= events.len() ==> #[trigger] actions[k] == ActionView::<C, H>::Nothing
        }),
{
    let all = seq![Event::Received(request)] + events;
    lemma_missing_header(request.headers@, config.scheme);
    assert(all.first() == Event::<C, H>::Received(request));
    assert(all.drop_first() =~= events);
    lemma_final_state_is_silent(config, CallState::<C>::Rejected, events);
}

/// Where each kind of action comes from, from any state: a request goes to
/// the validator only as it arrived and with the credentials that extraction
/// read from it; a request goes to the handler only if the call was waiting
/// with it or the validator gave it back before; an answer is the handler's;
/// and an error is extraction's or the validator's.
proof fn lemma_run_invariant<C, H>(
    config: ConfigView,
    state: CallState<C>,
    events: Seq<Event<C, H>>,
    k: int,
)
    requires
        0 <= k < events.len(),
    ensures
        run(config, state, events).1.len() == events.len(),
        match run(config, state, events).1[k] {
            ActionView::Validate { request, credentials } => {
                &&& events[k] == Event::<C, H>::Received(request)
                &&& extracted(request.headers@, config.scheme) == Ok::<
                    CredentialsView,
                    AuthErrorKind,
                >(credentials)
            },
            ActionView::Dispatch(request) => {
                ||| state == (CallState::AwaitingHandler { request })
                ||| exists|j: int|
                    0 <= j < k && #[trigger] events[j] == Event::<C, H>::Validated(Ok(request))
            },
            ActionView::Complete(response) => events[k] == Event::<C, H>::Responded(response),
            ActionView::Reject(error) => rejects(config, events[k], error),
            _ => true,
        },
    decreases events.len(),
{
    let (mid, action) = next(config, state, events.first());
    let rest = events.drop_first();
    lemma_run_len(config, state, events);
    lemma_run_len(config, mid, rest);
    if k > 0 {
        lemma_run_invariant(config, mid, rest, k - 1);
        let actions = run(config, state, events).1;
        assert(actions[k] == run(config, mid, rest).1[k - 1]);
        assert(events[k] == rest[k - 1]);
        match actions[k] {
            ActionView::Dispatch(request) => {
                if mid == (CallState::AwaitingHandler { request }) {
                    if state != (CallState::AwaitingHandler { request }) {
                        assert(events[0] == Event::<C, H>::Validated(Ok(request)));
                    }
                } else {
                    let j = choose|j: int|
                        0 <= j < k - 1 && #[trigger] rest[j] == Event::<C, H>::Validated(
                            Ok(request),
                        );
                    assert(events[j + 1] == rest[j]);
                }
            },
            _ => {},
        }
    }
}

/// No request reaches the validator but as it arrived, together with the
/// credentials that extraction read from it, which are of the configured
/// scheme.
pub proof fn lemma_validated_with_extracted_credentials<C, H>(
    config: ConfigView,
    events: Seq<Event<C, H>>,
    k: int,
)
    requires
        0 <= k < events.len(),
        run(config, CallState::Extracting, events).1[k] is Validate,
    ensures
        ({
            let action = run(config, CallState::Extracting, events).1[k];
            &&& events[k] == Event::<C, H>::Received(action->Validate_request)
            &&& extracted(action->Validate_request.headers@, config.scheme) == Ok::<
                CredentialsView,
                AuthErrorKind,
            >(action->Validate_credentials)
            &&& action->Validate_credentials.scheme() == config.scheme
        }),
{
    lemma_run_invariant(config, CallState::Extracting, events, k);
}

/// No request reaches the handler without having passed validation: what is
/// handed to the handler is what the validator gave back earlier in the
/// call.
pub proof fn lemma_forwarded_after_validation<C, H>(
    config: ConfigView,
    events: Seq<Event<C, H>>,
    k: int,
)
    requires
        0 <= k < events.len(),
        run(config, CallState::Extracting, events).1[k] is Dispatch,
    ensures
        exists|j: int|
            0 <= j < k && #[trigger] events[j] == Event::<C, H>::Validated(
                Ok(run(config, CallState::Extracting, events).1[k]->Dispatch_0),
            ),
{
    lemma_run_invariant(config, CallState::Extracting, events, k);
}

/// The handler's answer is the call's answer: whatever a call answers with,
/// success or failure, is what the handler answered at that step, unchanged.
pub proof fn lemma_answer_is_the_handlers<C, H>(
    config: ConfigView,
    events: Seq<Event<C, H>>,
    k: int,
)
    requires
        0 <= k < events.len(),
        run(config, CallState::Extracting, events).1[k] is Complete,
    ensures
        events[k] == Event::<C, H>::Responded(
            run(config, CallState::Extracting, events).1[k]->Complete_0,
        ),
{
    lemma_run_invariant(config, CallState::Extracting, events, k);
}

/// A call rejects for two reasons only: the request that arrived has no
/// usable credentials, or the validator declined. In the first case the
/// error is `MissingHeader` or `InvalidFormat` with the challenge of the
/// configuration; in the second it is the validator's own error.
pub proof fn lemma_rejection_has_a_reason<C, H>(
    config: ConfigView,
    events: Seq<Event<C, H>>,
    k: int,
)
    requires
        0 <= k < events.len(),
        run(config, CallState::Extracting, events).1[k] is Reject,
    ensures
        rejects(config, events[k], run(config, CallState::Extracting, events).1[k]->Reject_0),
{
    lemma_run_invariant(config, CallState::Extracting, events, k);
}

/// A call with credentials that the validator accepts goes all the way: the
/// request goes to the validator as it arrived, with the credentials read
/// from it; what the validator gives back goes to the handler; the handler
/// is given up as soon as it has the request; and the handler's answer is
/// the call's answer, unchanged.
pub proof fn lemma_accepted_call<C, H>(
    config: ConfigView,
    request: Request<C>,
    validated: Request<C>,
    response: H,
)
    requires
        extracted(request.headers@, config.scheme).is_ok(),
    ensures
        run(config, CallState::Extracting, accepted(request, validated, response)) == (
            CallState::<C>::Completed,
            seq![
                ActionView::<C, H>::Validate {
                    request,
                    credentials: extracted(request.headers@, config.scheme).unwrap(),
                },
                ActionView::AcquireHandler,
                ActionView::Dispatch(validated),
                ActionView::ReleaseHandler,
                ActionView::Complete(response),
            ],
        ),
{
    let e0 = accepted(request, validated, response);
    let e1 = e0.drop_first();
    let e2 = e1.drop_first();
    let e3 = e2.drop_first();
    let e4 = e3.drop_first();
    let e5 = e4.drop_first();
    assert(e5.len() == 0);
    let s1 = CallState::<C>::Validating;
    let s2 = CallState::<C>::AwaitingHandler { request: validated };
    let s3 = CallState::<C>::Dispatching;
    let s4 = CallState::<C>::AwaitingResponse;
    let s5 = CallState::<C>::Completed;
    assert(run(config, s5, e5).1 =~= Seq::<ActionView<C, H>>::empty());
    assert(run(config, s4, e4).1 =~= seq![ActionView::<C, H>::Complete(response)]);
    assert(run(config, s3, e3).1 =~= seq![
        ActionView::<C, H>::ReleaseHandler,
        ActionView::Complete(response),
    ]);
    assert(run(config, s2, e2).1 =~= seq![
        ActionView::<C, H>::Dispatch(validated),
        ActionView::ReleaseHandler,
        ActionView::Complete(response),
    ]);
    assert(run(config, s1, e1).1 =~= seq![
        ActionView::<C, H>::AcquireHandler,
        ActionView::Dispatch(validated),
        ActionView::ReleaseHandler,
        ActionView::Complete(response),
    ]);
    assert(run(config, CallState::Extracting, e0).1 =~= seq![
        ActionView::<C, H>::Validate {
            request,
            credentials: extracted(request.headers@, config.scheme).unwrap(),
        },
        ActionView::AcquireHandler,
        ActionView::Dispatch(validated),
        ActionView::ReleaseHandler,
        ActionView::Complete(response),
    ]);
}

/// A call that the validator declines is rejected with the validator's own
/// error, and asks for nothing after that: the handler is never called for
/// it.
pub proof fn lemma_declined_call<C, H>(
    config: ConfigView,
    request: Request<C>,
    error: AuthError,
    events: Seq<Event<C, H>>,
)
    requires
        extracted(request.headers@, config.scheme).is_ok(),
    ensures
        ({
            let (end, actions) = run(
                config,
                CallState::Extracting,
                seq![Event::Received(request), Event::Validated(Err(error))] + events,
            );
            &&& end == CallState::<C>::Rejected
            &&& actions.len() == events.len() + 2
            &&& actions[0] is Validate
            &&& actions[1] == ActionView::<C, H>::Reject(error@)
            &&& forall|k: int|
                2 <= k < events.len() + 2 ==> #[trigger] actions[k] == ActionView::<C, H>::Nothing
        }),
{
    let all = seq![Event::Received(request), Event::Validated(Err(error))] + events;
    let tail = all.drop_first();
    assert(all.first() == Event::<C, H>::Received(request));
    assert(tail.first() == Event::<C, H>::Validated(Err(error)));
    assert(tail.drop_first() =~= events);
    lemma_final_state_is_silent(config, CallState::<C>::Rejected, events);
    lemma_run_len(config, CallState::<C>::Extracting, all);
    let actions = run(config, CallState::<C>::Extracting, all).1;
    let inner = run(config, CallState::<C>::Validating, tail).1;
    let last = run(config, CallState::<C>::Rejected, events).1;
    assert forall|k: int| 2 <= k < events.len() + 2 implies #[trigger] actions[k]
        == ActionView::<C, H>::Nothing by {
        assert(actions[k] == inner[k - 1]);
        assert(inner[k - 1] == last[k - 2]);
    }
}

} // verus!
