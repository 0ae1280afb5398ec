//! Many calls, one handler: a model of one interceptor with the calls that
//! run through it at the same time.
//!
//! The calls take their steps in any order. The handler is behind the lock
//! that the interceptor holds. That lock is not this library's work, and the
//! model takes one thing of it for granted: it grants the handler to a call
//! that has asked for it, and only while no call holds it. What is proved
//! here is that the calls use the lock rightly: a call enters the handler
//! only while it holds the lock, and gives the lock up on every way out.

use vstd::prelude::*;
use crate::extractors::{extracted, ConfigView};
use crate::middleware::{next, ActionView, CallState, Event};
use crate::request::Request;
use crate::trace::accepted;

verus! {

/// The calls of one interceptor, and which of them holds the handler.
pub struct Instance<C> {
    pub calls: Seq<CallState<C>>,
    pub holder: Option<int>,
}

impl<C> Instance<C> {
    /// An interceptor with `n` calls that have not started, and a free
    /// handler.
    pub open spec fn fresh(n: nat) -> Self {
        Instance { calls: Seq::new(n, |i: int| CallState::Extracting), holder: None }
    }

    /// The lock and the calls agree: the call that holds the lock is the one
    /// that is in the handler, and no other call is.
    pub open spec fn consistent(self) -> bool {
        &&& forall|i: int|
            0 <= i < self.calls.len() ==> (#[trigger] self.calls[i].holds_handler()
                <==> self.holder == Some(i))
        &&& self.holder matches Some(i) ==> 0 <= i < self.calls.len()
    }

    /// Whether the lock would grant the handler to call `i` now: the call has
    /// asked for it, and nobody holds it.
    pub open spec fn grants(self, i: int) -> bool {
        &&& 0 <= i < self.calls.len()
        &&& self.calls[i] is AwaitingHandler
        &&& self.holder is None
    }

    /// Call `i` sees `event` and takes its step. A grant that the lock would
    /// not give does not happen, and neither does an event for a call that is
    /// not there: both leave everything as it is.
    pub open spec fn deliver<H>(self, config: ConfigView, i: int, event: Event<C, H>) -> (
        Self,
        ActionView<C, H>,
    ) {
        if !(0 <= i < self.calls.len()) || (event is HandlerAcquired && !self.grants(i)) {
            (self, ActionView::Nothing)
        } else {
            let (state, action) = next(config, self.calls[i], event);
            let holder = if event is HandlerAcquired {
                Some(i)
            } else if action is ReleaseHandler && self.holder == Some(i) {
                None
            } else {
                self.holder
            };
            (Instance { calls: self.calls.update(i, state), holder }, action)
        }
    }

    /// The interceptor after the deliveries `steps`, each an event for one
    /// call, and the actions that the calls asked for.
    pub open spec fn run<H>(self, config: ConfigView, steps: Seq<(int, Event<C, H>)>) -> (
        Self,
        Seq<ActionView<C, H>>,
    )
        decreases steps.len(),
    {
        if steps.len() == 0 {
            (self, Seq::empty())
        } else {
            let (before, actions) = self.run(config, steps.drop_last());
            let (after, action) = before.deliver(config, steps.last().0, steps.last().1);
            (after, actions.push(action))
        }
    }
}

/// The events `events`, all for call `i`.
pub open spec fn for_call<C, H>(i: int, events: Seq<Event<C, H>>) -> Seq<(int, Event<C, H>)> {
    Seq::new(events.len(), |k: int| (i, events[k]))
}

/// A step of one call leaves every other call as it was, and keeps the lock
/// and the calls in agreement.
pub proof fn lemma_deliver<C, H>(inst: Instance<C>, config: ConfigView, i: int, event: Event<C, H>)
    requires
        inst.consistent(),
    ensures
        inst.deliver(config, i, event).0.consistent(),
        inst.deliver(config, i, event).0.calls.len() == inst.calls.len(),
        forall|j: int|
            0 <= j < inst.calls.len() && j != i ==> #[trigger] inst.deliver(config, i, event).0.calls[j]
                == inst.calls[j],
{
    let after = inst.deliver(config, i, event).0;
    if 0 <= i < inst.calls.len() {
        assert(inst.calls[i].holds_handler() <==> inst.holder == Some(i));
    }
    assert forall|j: int| 0 <= j < after.calls.len() implies (#[trigger] after.calls[j].holds_handler()
        <==> after.holder == Some(j)) by {
        assert(inst.calls[j].holds_handler() <==> inst.holder == Some(j));
    }
}

/// However the calls take their steps, the lock and the calls agree.
pub proof fn lemma_run_consistent<C, H>(
    inst: Instance<C>,
    config: ConfigView,
    steps: Seq<(int, Event<C, H>)>,
)
    requires
        inst.consistent(),
    ensures
        inst.run(config, steps).0.consistent(),
        inst.run(config, steps).0.calls.len() == inst.calls.len(),
        inst.run(config, steps).1.len() == steps.len(),
    decreases steps.len(),
{
    if steps.len() > 0 {
        lemma_run_consistent(inst, config, steps.drop_last());
        lemma_deliver(inst.run(config, steps.drop_last()).0, config, steps.last().0, steps.last().1);
    }
}

/// Mutual exclusion: however many calls run through one interceptor, and in
/// whatever order they take their steps, no two of them are in the handler at
/// the same time.
pub proof fn lemma_mutual_exclusion<C, H>(
    n: nat,
    config: ConfigView,
    steps: Seq<(int, Event<C, H>)>,
    i: int,
    j: int,
)
    requires
        0 <= i < n,
        0 <= j < n,
        Instance::<C>::fresh(n).run(config, steps).0.calls[i].holds_handler(),
        Instance::<C>::fresh(n).run(config, steps).0.calls[j].holds_handler(),
    ensures
        i == j,
{
    lemma_run_consistent(Instance::<C>::fresh(n), config, steps);
}

/// A request is handed to the handler only by a call that was granted the
/// handler while no call was in it.
pub proof fn lemma_dispatch_is_exclusive<C, H>(
    n: nat,
    config: ConfigView,
    steps: Seq<(int, Event<C, H>)>,
    i: int,
    event: Event<C, H>,
)
    requires
        Instance::<C>::fresh(n).run(config, steps).0.deliver(config, i, event).1 is Dispatch,
    ensures
        ({
            let before = Instance::<C>::fresh(n).run(config, steps).0;
            let after = before.deliver(config, i, event).0;
            &&& forall|j: int| 0 <= j < n ==> !(#[trigger] before.calls[j]).holds_handler()
            &&& forall|j: int| 0 <= j < n ==> ((#[trigger] after.calls[j]).holds_handler() <==> j == i)
        }),
{
    let before = Instance::<C>::fresh(n).run(config, steps).0;
    lemma_run_consistent(Instance::<C>::fresh(n), config, steps);
    lemma_deliver(before, config, i, event);
}

/// Cancellation safety: a call that is cancelled, wherever it stands, does
/// not hold the handler afterwards. If it held the handler, the handler is
/// free; if it did not, the handler is with whoever had it. So a call that
/// waits for a free handler can be granted it.
pub proof fn lemma_cancellation_frees_handler<C, H>(
    n: nat,
    config: ConfigView,
    steps: Seq<(int, Event<C, H>)>,
    i: int,
)
    requires
        0 <= i < n,
    ensures
        ({
            let before = Instance::<C>::fresh(n).run(config, steps).0;
            let after = before.deliver(config, i, Event::<C, H>::Cancelled).0;
            &&& after.calls[i].is_final()
            &&& after.holder != Some(i)
            &&& after.holder == if before.holder == Some(i) {
                None
            } else {
                before.holder
            }
            &&& forall|j: int|
                0 <= j < n && (#[trigger] after.calls[j]) is AwaitingHandler && (before.holder
                    is None || before.holder == Some(i)) ==> after.grants(j)
        }),
{
    let before = Instance::<C>::fresh(n).run(config, steps).0;
    let after = before.deliver(config, i, Event::<C, H>::Cancelled).0;
    lemma_run_consistent(Instance::<C>::fresh(n), config, steps);
    lemma_deliver(before, config, i, Event::<C, H>::Cancelled);
    assert(before.calls[i].holds_handler() <==> before.holder == Some(i));
    assert(after.calls[i].holds_handler() <==> after.holder == Some(i));
}

/// The handler is never left with a call that is over: whoever holds it is
/// handing a request over at that moment.
pub proof fn lemma_no_leak<C, H>(n: nat, config: ConfigView, steps: Seq<(int, Event<C, H>)>)
    ensures
        ({
            let inst = Instance::<C>::fresh(n).run(config, steps).0;
            inst.holder matches Some(i) ==> 0 <= i < n && inst.calls[i] is Dispatching
        }),
{
    let inst = Instance::<C>::fresh(n).run(config, steps).0;
    lemma_run_consistent(Instance::<C>::fresh(n), config, steps);
    if let Some(i) = inst.holder {
        assert(inst.calls[i].holds_handler());
    }
}

/// A call with acceptable credentials that finds the handler free goes all
/// the way, whatever the other calls have done before: it ends completed,
/// leaves the handler free and the other calls as they were, and asks for the
/// same actions as a call that runs alone.
pub proof fn lemma_accepted_call_completes<C, H>(
    inst: Instance<C>,
    config: ConfigView,
    i: int,
    request: Request<C>,
    validated: Request<C>,
    response: H,
)
    requires
        inst.consistent(),
        0 <= i < inst.calls.len(),
        inst.calls[i] is Extracting,
        inst.holder is None,
        extracted(request.headers@, config.scheme).is_ok(),
    ensures
        ({
            let (after, actions) = inst.run(
                config,
                for_call(i, accepted(request, validated, response)),
            );
            &&& after.consistent()
            &&& after.holder is None
            &&& after.calls == inst.calls.update(i, CallState::Completed)
            &&& actions == seq![
                ActionView::<C, H>::Validate {
                    request,
                    credentials: extracted(request.headers@, config.scheme).unwrap(),
                },
                ActionView::AcquireHandler,
                ActionView::Dispatch(validated),
                ActionView::ReleaseHandler,
                ActionView::Complete(response),
            ]
        }),
{
    let s5 = for_call(i, accepted(request, validated, response));
    let s4 = s5.drop_last();
    let s3 = s4.drop_last();
    let s2 = s3.drop_last();
    let s1 = s2.drop_last();
    let s0 = s1.drop_last();
    assert(s0.len() == 0);
    let r0 = inst.run(config, s0);
    assert(r0.0 == inst && r0.1 =~= Seq::<ActionView<C, H>>::empty());
    let r1 = inst.run(config, s1);
    assert(s1.last() == (i, Event::<C, H>::Received(request)));
    assert(r1.0.calls =~= inst.calls.update(i, CallState::Validating));
    let r2 = inst.run(config, s2);
    assert(s2.last() == (i, Event::<C, H>::Validated(Ok(validated))));
    assert(r2.0.calls =~= inst.calls.update(i, CallState::AwaitingHandler { request: validated }));
    let r3 = inst.run(config, s3);
    assert(s3.last() == (i, Event::<C, H>::HandlerAcquired));
    assert(r2.0.grants(i));
    assert(r3.0.calls =~= inst.calls.update(i, CallState::Dispatching));
    assert(r3.0.holder == Some(i));
    let r4 = inst.run(config, s4);
    assert(s4.last() == (i, Event::<C, H>::Dispatched));
    assert(r4.0.calls =~= inst.calls.update(i, CallState::AwaitingResponse));
    assert(r4.0.holder is None);
    let r5 = inst.run(config, s5);
    assert(s5.last() == (i, Event::<C, H>::Responded(response)));
    assert(r5.0.calls =~= inst.calls.update(i, CallState::Completed));
    assert(r5.1 =~= seq![
        ActionView::<C, H>::Validate {
            request,
            credentials: extracted(request.headers@, config.scheme).unwrap(),
        },
        ActionView::AcquireHandler,
        ActionView::Dispatch(validated),
        ActionView::ReleaseHandler,
        ActionView::Complete(response),
    ]);
    lemma_run_consistent(inst, config, s5);
}

/// Two calls with the same request, one after the other, with a validator
/// that accepts both: each is forwarded, and each asks for the same actions.
/// Nothing that the first call leaves behind changes what the second does.
pub proof fn lemma_repeated_call_forwards_again<C, H>(
    inst: Instance<C>,
    config: ConfigView,
    i: int,
    j: int,
    request: Request<C>,
    response: H,
)
    requires
        inst.consistent(),
        0 <= i < inst.calls.len(),
        0 <= j < inst.calls.len(),
        i != j,
        inst.calls[i] is Extracting,
        inst.calls[j] is Extracting,
        inst.holder is None,
        extracted(request.headers@, config.scheme).is_ok(),
    ensures
        ({
            let events = accepted(request, request, response);
            let (mid, first) = inst.run(config, for_call(i, events));
            let (end, second) = mid.run(config, for_call(j, events));
            &&& first == second
            &&& first[2] == ActionView::<C, H>::Dispatch(request)
            &&& end.calls[i] is Completed
            &&& end.calls[j] is Completed
            &&& end.holder is None
        }),
{
    let events = accepted(request, request, response);
    lemma_accepted_call_completes(inst, config, i, request, request, response);
    let mid = inst.run(config, for_call(i, events)).0;
    lemma_accepted_call_completes(mid, config, j, request, request, response);
}

} // verus!
