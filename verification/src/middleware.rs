//! The authentication interceptor: its configuration, and the steps that one
//! request takes through it.
//!
//! A request is first read for credentials, then handed to the validator,
//! then forwarded to the handler behind the interceptor. Validating and
//! forwarding take time and happen outside this library. So the interceptor
//! is written as a state machine: [`AuthenticationMiddleware::step`] takes
//! the state of one call and what has just happened, and says what the state
//! is now and what is to be done next. Whoever drives the machine does what
//! it says and reports back.
//!
//! The handler is shared by all calls of one interceptor and must not be
//! entered twice at a time. A call asks for it, enters it alone, and gives
//! it up as soon as the request is handed over, or when the call ends early.

use vstd::prelude::*;
use std::sync::Arc;
use futures_locks::Mutex;
use crate::challenge::{AuthError, AuthErrorView};
use crate::credentials::{Credentials, CredentialsView, Scheme};
use crate::extractors::{extract, extracted, Config, ConfigView};
use crate::request::Request;

verus! {

/// Another handle on what `a` points to. `Arc::clone` hands out a second
/// pointer to the same allocation, so the value behind the result is the
/// value behind `a`.
#[verifier::external_body]
fn share<T>(a: &Arc<T>) -> (r: Arc<T>)
    ensures
        r == *a,
{
    Arc::clone(a)
}

/// `futures_locks::Mutex`, the lock around the handler: a handle that can be
/// cloned, all clones guarding the one value. What is inside it is not seen
/// from here.
#[verifier::external_type_specification]
#[verifier::external_body]
#[verifier::reject_recursive_types(T)]
pub struct ExMutex<T: ?Sized>(futures_locks::Mutex<T>);

/// A new lock around `service`, made by `futures_locks::Mutex::new`. Nothing
/// is claimed of the result.
#[verifier::external_body]
fn lock_around<S>(service: S) -> (lock: Mutex<S>) {
    Mutex::new(service)
}

/// Another handle on the lock `lock`, made by the `clone` of
/// `futures_locks::Mutex`. A lock of that crate is nothing but a counted
/// pointer to the state of the lock and to what it guards, and its `clone`
/// clones that pointer. So the result is the lock that `lock` is: the two
/// guard the same value, and either is held exactly when the other is.
#[verifier::external_body]
fn same_lock<S>(lock: &Mutex<S>) -> (handle: Mutex<S>)
    ensures
        handle == *lock,
{
    lock.clone()
}

/// Where one call stands.
#[derive(Debug, PartialEq, Eq)]
pub enum CallState<C> {
    /// The request has not arrived yet.
    Extracting,
    /// The validator has the request and the credentials.
    Validating,
    /// The request is validated and the call has asked for the handler.
    AwaitingHandler { request: Request<C> },
    /// The call has the handler to itself and is handing the request over.
    Dispatching,
    /// The request is with the handler, and the handler is given up.
    AwaitingResponse,
    /// The handler has answered.
    Completed,
    /// The request was turned away.
    Rejected,
    /// The call ended early.
    Cancelled,
}

/// What happened to a call.
#[derive(Debug, PartialEq, Eq)]
pub enum Event<C, H> {
    /// The request arrived.
    Received(Request<C>),
    /// The validator gave the request back or declined it.
    Validated(Result<Request<C>, AuthError>),
    /// The handler was granted to this call.
    HandlerAcquired,
    /// The request was handed to the handler.
    Dispatched,
    /// The handler answered with `H`, its own success or failure.
    Responded(H),
    /// The call was cancelled, or unwound by a fault.
    Cancelled,
}

/// What is to be done for a call.
#[derive(Debug, PartialEq, Eq)]
pub enum Action<C, H> {
    /// Hand the request and the credentials to the validator.
    Validate { request: Request<C>, credentials: Credentials },
    /// Turn the request away with this error.
    Reject(AuthError),
    /// Ask for the handler and wait until it is granted.
    AcquireHandler,
    /// Hand this request to the handler.
    Dispatch(Request<C>),
    /// Give the handler up: release it where it is held, and withdraw the
    /// request for it where it is not yet granted.
    ReleaseHandler,
    /// Answer with what the handler answered, unchanged.
    Complete(H),
    /// Nothing.
    Nothing,
}

/// What an [`Action`] holds.
pub enum ActionView<C, H> {
    Validate { request: Request<C>, credentials: CredentialsView },
    Reject(AuthErrorView),
    AcquireHandler,
    Dispatch(Request<C>),
    ReleaseHandler,
    Complete(H),
    Nothing,
}

impl<C, H> View for Action<C, H> {
    type V = ActionView<C, H>;

    open spec fn view(&self) -> ActionView<C, H> {
        match self {
            Action::Validate { request, credentials } => ActionView::Validate {
                request: *request,
                credentials: credentials@,
            },
            Action::Reject(error) => ActionView::Reject(error@),
            Action::AcquireHandler => ActionView::AcquireHandler,
            Action::Dispatch(request) => ActionView::Dispatch(*request),
            Action::ReleaseHandler => ActionView::ReleaseHandler,
            Action::Complete(response) => ActionView::Complete(*response),
            Action::Nothing => ActionView::Nothing,
        }
    }
}

impl<C> CallState<C> {
    /// A call that is over: nothing more happens to it.
    pub open spec fn is_final(self) -> bool {
        self is Completed || self is Rejected || self is Cancelled
    }

    /// A call that has the handler to itself.
    pub open spec fn holds_handler(self) -> bool {
        self is Dispatching
    }

    /// Tells whether the call is over.
    pub fn finished(&self) -> (r: bool)
        ensures
            r == self.is_final(),
    {
        match self {
            CallState::Completed | CallState::Rejected | CallState::Cancelled => true,
            _ => false,
        }
    }

    /// Tells whether the call has the handler to itself.
    pub fn dispatching(&self) -> (r: bool)
        ensures
            r == self.holds_handler(),
    {
        match self {
            CallState::Dispatching => true,
            _ => false,
        }
    }
}

/// The first step of a call: a request with credentials goes to the
/// validator, together with them; any other is rejected with the kind of
/// failure and the challenge of the configuration.
pub open spec fn received<C, H>(request: Request<C>, config: ConfigView) -> (
    CallState<C>,
    ActionView<C, H>,
) {
    match extracted(request.headers@, config.scheme) {
        Ok(credentials) => (CallState::Validating, ActionView::Validate { request, credentials }),
        Err(kind) => (
            CallState::Rejected,
            ActionView::Reject(AuthErrorView { kind, challenge: config.challenge() }),
        ),
    }
}

/// One step of one call: the state after `event`, and what is to be done.
///
/// - A request that arrives is read for credentials. With credentials it goes
///   to the validator; without, it is rejected with the challenge of the
///   configuration.
/// - What the validator gives back is forwarded: the call asks for the
///   handler. What the validator declines is rejected with the validator's
///   own error.
/// - Once the handler is granted, the request is handed to it, and as soon as
///   that is done the handler is given up.
/// - The handler's answer is the call's answer.
/// - A call that is cancelled gives up the handler if it holds it or has
///   asked for it.
/// - An event that does not fit the state changes nothing and asks for
///   nothing.
pub open spec fn next<C, H>(config: ConfigView, state: CallState<C>, event: Event<C, H>) -> (
    CallState<C>,
    ActionView<C, H>,
) {
    match state {
        CallState::Extracting => match event {
            Event::Received(request) => received(request, config),
            Event::Cancelled => (CallState::Cancelled, ActionView::Nothing),
            _ => (state, ActionView::Nothing),
        },
        CallState::Validating => match event {
            Event::Validated(Ok(request)) => (
                CallState::AwaitingHandler { request },
                ActionView::AcquireHandler,
            ),
            Event::Validated(Err(error)) => (CallState::Rejected, ActionView::Reject(error@)),
            Event::Cancelled => (CallState::Cancelled, ActionView::Nothing),
            _ => (state, ActionView::Nothing),
        },
        CallState::AwaitingHandler { request } => match event {
            Event::HandlerAcquired => (CallState::Dispatching, ActionView::Dispatch(request)),
            Event::Cancelled => (CallState::Cancelled, ActionView::ReleaseHandler),
            _ => (state, ActionView::Nothing),
        },
        CallState::Dispatching => match event {
            Event::Dispatched => (CallState::AwaitingResponse, ActionView::ReleaseHandler),
            Event::Cancelled => (CallState::Cancelled, ActionView::ReleaseHandler),
            _ => (state, ActionView::Nothing),
        },
        CallState::AwaitingResponse => match event {
            Event::Responded(response) => (CallState::Completed, ActionView::Complete(response)),
            Event::Cancelled => (CallState::Cancelled, ActionView::Nothing),
            _ => (state, ActionView::Nothing),
        },
        _ => (state, ActionView::Nothing),
    }
}

/// Middleware for checking HTTP authentication: a scheme, the challenge for
/// requests without usable credentials, and the validator.
///
/// A request without an `Authorization` header is turned away at once,
/// without a call of the validator. Any other request goes to the validator
/// together with the credentials read from it, and the validator gives the
/// request back where it accepts them.
///
/// The validator is the caller's, and this library never calls it: it is kept
/// here to be handed to whoever drives the calls.
pub struct HttpAuthentication<F> {
    process_fn: Arc<F>,
    config: Config,
}

/// The interceptor in front of one handler, made by
/// [`HttpAuthentication::new_transform`].
///
/// The handler is behind a lock, so that one call at a time enters it. The
/// calls of this interceptor wait for that lock when [`step`] asks them to
/// acquire the handler, and let go of it when it asks them to release it.
///
/// [`step`]: AuthenticationMiddleware::step
#[verifier::reject_recursive_types(S)]
pub struct AuthenticationMiddleware<S, F> {
    service: Mutex<S>,
    process_fn: Arc<F>,
    config: Config,
}

impl<F> HttpAuthentication<F> {
    /// The scheme, the realm and the scope that this middleware is set up
    /// with.
    pub closed spec fn settings(&self) -> ConfigView {
        self.config@
    }

    /// The validator.
    pub closed spec fn validator(&self) -> F {
        *self.process_fn
    }

    /// The middleware for `scheme` with the validator `process_fn`, an empty
    /// realm and no scope.
    pub fn with_fn(scheme: Scheme, process_fn: F) -> (r: Self)
        ensures
            r.settings() == (ConfigView { scheme, realm: Seq::empty(), scope: None }),
            r.validator() == process_fn,
    {
        HttpAuthentication { process_fn: Arc::new(process_fn), config: Config::new(scheme) }
    }

    /// The middleware for the Basic scheme.
    pub fn basic(process_fn: F) -> (r: Self)
        ensures
            r.settings() == (ConfigView { scheme: Scheme::Basic, realm: Seq::empty(), scope: None }),
            r.validator() == process_fn,
    {
        Self::with_fn(Scheme::Basic, process_fn)
    }

    /// The middleware for the Bearer scheme.
    pub fn bearer(process_fn: F) -> (r: Self)
        ensures
            r.settings() == (ConfigView {
                scheme: Scheme::Bearer,
                realm: Seq::empty(),
                scope: None,
            }),
            r.validator() == process_fn,
    {
        Self::with_fn(Scheme::Bearer, process_fn)
    }

    /// This middleware with another realm in its challenge.
    pub fn realm(self, realm: Vec<u8>) -> (r: Self)
        ensures
            r.settings() == (ConfigView { realm: realm@, ..self.settings() }),
            r.validator() == self.validator(),
    {
        HttpAuthentication { process_fn: self.process_fn, config: self.config.realm(realm) }
    }

    /// This middleware with a scope in its challenge. The scope shows in a
    /// Bearer challenge only.
    pub fn scope(self, scope: Vec<u8>) -> (r: Self)
        ensures
            r.settings() == (ConfigView { scope: Some(scope@), ..self.settings() }),
            r.validator() == self.validator(),
    {
        HttpAuthentication { process_fn: self.process_fn, config: self.config.scope(scope) }
    }

    /// The interceptor in front of the handler `service`. It has the
    /// settings of this middleware and shares its validator, and it puts the
    /// handler behind a lock of its own.
    pub fn new_transform<S>(&self, service: S) -> (r: AuthenticationMiddleware<S, F>)
        ensures
            r.settings() == self.settings(),
            r.validator() == self.validator(),
    {
        AuthenticationMiddleware {
            service: lock_around(service),
            process_fn: share(&self.process_fn),
            config: self.config.duplicate(),
        }
    }
}

impl<S, F> AuthenticationMiddleware<S, F> {
    /// The scheme, the realm and the scope that this interceptor is set up
    /// with.
    pub closed spec fn settings(&self) -> ConfigView {
        self.config@
    }

    /// The validator.
    pub closed spec fn validator(&self) -> F {
        *self.process_fn
    }

    /// The lock around the handler.
    pub closed spec fn lock(&self) -> Mutex<S> {
        self.service
    }

    /// The configuration.
    pub fn config(&self) -> (r: &Config)
        ensures
            r@ == self.settings(),
    {
        &self.config
    }

    /// A handle on the lock around the handler: the lock that this
    /// interceptor was made with, not a new one. A call waits on it when it
    /// is asked to acquire the handler, so all calls of one interceptor wait
    /// on the same lock.
    pub fn service(&self) -> (r: Mutex<S>)
        ensures
            r == self.lock(),
    {
        same_lock(&self.service)
    }

    /// A handle on the validator.
    pub fn process_fn(&self) -> (r: Arc<F>)
        ensures
            *r == self.validator(),
    {
        share(&self.process_fn)
    }

    /// Starts a call with the request that arrived: the first step of a new
    /// call.
    pub fn call<C, H>(&self, request: Request<C>) -> (r: (CallState<C>, Action<C, H>))
        ensures
            r.0 == next::<C, H>(self.settings(), CallState::Extracting, Event::Received(request)).0,
            r.1@ == next::<C, H>(
                self.settings(),
                CallState::Extracting,
                Event::Received(request),
            ).1,
    {
        self.step(CallState::Extracting, Event::Received(request))
    }

    /// Takes one step of a call: see [`next`].
    pub fn step<C, H>(&self, state: CallState<C>, event: Event<C, H>) -> (r: (
        CallState<C>,
        Action<C, H>,
    ))
        ensures
            r.0 == next(self.settings(), state, event).0,
            r.1@ == next(self.settings(), state, event).1,
    {
        match state {
            CallState::Extracting => match event {
                Event::Received(request) => match extract(&request, &self.config) {
                    Ok(credentials) => (
                        CallState::Validating,
                        Action::Validate { request, credentials },
                    ),
                    Err(error) => (CallState::Rejected, Action::Reject(error)),
                },
                Event::Cancelled => (CallState::Cancelled, Action::Nothing),
                _ => (CallState::Extracting, Action::Nothing),
            },
            CallState::Validating => match event {
                Event::Validated(Ok(request)) => (
                    CallState::AwaitingHandler { request },
                    Action::AcquireHandler,
                ),
                Event::Validated(Err(error)) => (CallState::Rejected, Action::Reject(error)),
                Event::Cancelled => (CallState::Cancelled, Action::Nothing),
                _ => (CallState::Validating, Action::Nothing),
            },
            CallState::AwaitingHandler { request } => match event {
                Event::HandlerAcquired => (CallState::Dispatching, Action::Dispatch(request)),
                Event::Cancelled => (CallState::Cancelled, Action::ReleaseHandler),
                _ => (CallState::AwaitingHandler { request }, Action::Nothing),
            },
            CallState::Dispatching => match event {
                Event::Dispatched => (CallState::AwaitingResponse, Action::ReleaseHandler),
                Event::Cancelled => (CallState::Cancelled, Action::ReleaseHandler),
                _ => (CallState::Dispatching, Action::Nothing),
            },
            CallState::AwaitingResponse => match event {
                Event::Responded(response) => (CallState::Completed, Action::Complete(response)),
                Event::Cancelled => (CallState::Cancelled, Action::Nothing),
                _ => (CallState::AwaitingResponse, Action::Nothing),
            },
            CallState::Completed => (CallState::Completed, Action::Nothing),
            CallState::Rejected => (CallState::Rejected, Action::Nothing),
            CallState::Cancelled => (CallState::Cancelled, Action::Nothing),
        }
    }
}

} // verus!
