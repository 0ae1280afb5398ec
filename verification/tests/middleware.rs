use std::cell::Cell;
use std::sync::Arc;

use futures_locks::{Mutex, MutexGuard};
use httpauth::challenge::{AuthError, AuthErrorKind, Challenge};
use httpauth::credentials::{Credentials, Scheme};
use httpauth::middleware::{Action, AuthenticationMiddleware, CallState, Event, HttpAuthentication};
use httpauth::request::{HeaderMap, Request};

type Context = Vec<String>;
type Response = Result<String, String>;

/// A handler that counts how many calls are inside it.
struct Handler {
    in_flight: u32,
    most_in_flight: u32,
    served: Vec<Request<Context>>,
}

impl Handler {
    fn new() -> Handler {
        Handler { in_flight: 0, most_in_flight: 0, served: Vec::new() }
    }

    fn enter(&mut self, request: Request<Context>) {
        self.in_flight += 1;
        self.most_in_flight = self.most_in_flight.max(self.in_flight);
        assert!(self.in_flight <= 1);
        self.served.push(request);
    }

    fn leave(&mut self) {
        self.in_flight -= 1;
    }
}

fn request(authorization: Option<&str>) -> Request<Context> {
    let mut headers = HeaderMap::new();
    headers.append(b"Host".to_vec(), b"example.org".to_vec());
    if let Some(value) = authorization {
        headers.append(b"Authorization".to_vec(), value.as_bytes().to_vec());
    }
    Request::new(headers, Vec::new())
}

fn accept_all(request: Request<Context>, _credentials: Credentials) -> Result<Request<Context>, AuthError> {
    Ok(request)
}

fn only_xyz(request: Request<Context>, credentials: Credentials) -> Result<Request<Context>, AuthError> {
    match credentials {
        Credentials::Bearer { ref token } if token == b"xyz" => Ok(request),
        _ => Err(AuthError::rejected(Challenge {
            scheme: Scheme::Bearer,
            realm: b"api".to_vec(),
            error: Some(b"invalid_token".to_vec()),
            error_description: None,
            scope: None,
        })),
    }
}

/// Runs one call from its first step to its last, doing at once what each
/// action asks for.
fn drive<F>(
    middleware: &AuthenticationMiddleware<Handler, F>,
    request: Request<Context>,
    response: Response,
) -> (Result<Response, AuthError>, Vec<String>)
where
    F: Fn(Request<Context>, Credentials) -> Result<Request<Context>, AuthError>,
{
    let validator = middleware.process_fn();
    let handler: Mutex<Handler> = middleware.service();
    let mut response = Some(response);
    let mut guard: Option<MutexGuard<Handler>> = None;
    let mut log = Vec::new();
    let (mut state, mut action) = middleware.call::<Context, Response>(request);
    loop {
        let event = match action {
            Action::Validate { request, credentials } => {
                log.push("validate".to_string());
                Event::Validated((*validator)(request, credentials))
            }
            Action::Reject(error) => {
                log.push("reject".to_string());
                assert_eq!(state, CallState::Rejected);
                return (Err(error), log);
            }
            Action::AcquireHandler => {
                log.push("acquire".to_string());
                guard = Some(handler.try_lock().expect("the handler is free"));
                Event::HandlerAcquired
            }
            Action::Dispatch(request) => {
                log.push("dispatch".to_string());
                assert!(state.dispatching());
                let inside = guard.as_mut().expect("the handler is held");
                inside.enter(request);
                inside.leave();
                Event::Dispatched
            }
            Action::ReleaseHandler => {
                log.push("release".to_string());
                guard = None;
                Event::Responded(response.take().expect("one answer for one call"))
            }
            Action::Complete(answer) => {
                log.push("complete".to_string());
                assert_eq!(state, CallState::Completed);
                assert!(state.finished());
                return (Ok(answer), log);
            }
            Action::Nothing => panic!("the call asks for nothing in the state {:?}", state),
        };
        let (next_state, next_action) = middleware.step(state, event);
        state = next_state;
        action = next_action;
    }
}

#[test]
fn basic_credentials_reach_the_handler() {
    let seen: Arc<std::sync::Mutex<Vec<Credentials>>> = Arc::new(std::sync::Mutex::new(Vec::new()));
    let record = seen.clone();
    let middleware = HttpAuthentication::basic(move |request: Request<Context>, credentials: Credentials| {
        record.lock().unwrap().push(credentials);
        Ok::<Request<Context>, AuthError>(request)
    })
    .new_transform(Handler::new());
    let handler = middleware.service();
    let incoming = request(Some("Basic dGVzdDp0ZXN0"));
    let (outcome, log) = drive(&middleware, incoming.clone(), Ok("Test\r\n".to_string()));
    assert_eq!(outcome, Ok(Ok("Test\r\n".to_string())));
    assert_eq!(log, ["validate", "acquire", "dispatch", "release", "complete"]);
    assert_eq!(
        *seen.lock().unwrap(),
        [Credentials::Basic { username: b"test".to_vec(), password: b"test".to_vec() }]
    );
    let inside = handler.try_lock().expect("the handler is free again");
    assert_eq!(inside.served, [incoming]);
    assert_eq!(inside.most_in_flight, 1);
}

#[test]
fn a_declined_bearer_token_is_challenged() {
    let middleware = HttpAuthentication::bearer(only_xyz).new_transform(Handler::new());
    let handler = middleware.service();
    let (outcome, log) = drive(&middleware, request(Some("Bearer abc123")), Ok(String::new()));
    let error = outcome.unwrap_err();
    assert_eq!(error.kind, AuthErrorKind::ValidationRejected);
    let rejection = error.rejection();
    assert_eq!(rejection.status, 401);
    assert!(rejection.www_authenticate.starts_with(b"Bearer"));
    assert_eq!(rejection.www_authenticate, b"Bearer realm=\"api\", error=\"invalid_token\"".to_vec());
    assert_eq!(log, ["validate", "reject"]);
    let inside = handler.try_lock().expect("the handler was never taken");
    assert!(inside.served.is_empty());
    assert_eq!(inside.most_in_flight, 0);
}

#[test]
fn an_accepted_bearer_token_is_forwarded() {
    let middleware = HttpAuthentication::bearer(only_xyz).new_transform(Handler::new());
    let handler = middleware.service();
    let (outcome, _) = drive(&middleware, request(Some("Bearer xyz")), Ok("fine".to_string()));
    assert_eq!(outcome, Ok(Ok("fine".to_string())));
    assert_eq!(handler.try_lock().unwrap().served.len(), 1);
}

#[test]
fn a_request_without_the_header_calls_nobody() {
    let calls = Arc::new(std::sync::Mutex::new(0u32));
    let counter = calls.clone();
    let middleware = HttpAuthentication::with_fn(Scheme::Bearer, move |request: Request<Context>, _: Credentials| {
        *counter.lock().unwrap() += 1;
        Ok::<Request<Context>, AuthError>(request)
    })
    .realm(b"api".to_vec())
    .scope(b"read".to_vec())
    .new_transform(Handler::new());
    let handler = middleware.service();
    let (outcome, log) = drive(&middleware, request(None), Ok(String::new()));
    let error = outcome.unwrap_err();
    assert_eq!(error.kind, AuthErrorKind::MissingHeader);
    assert_eq!(error.rejection().www_authenticate, b"Bearer realm=\"api\", scope=\"read\"".to_vec());
    assert_eq!(log, ["reject"]);
    assert_eq!(*calls.lock().unwrap(), 0);
    assert!(handler.try_lock().unwrap().served.is_empty());
}

#[test]
fn a_malformed_header_calls_nobody() {
    let middleware = HttpAuthentication::basic(accept_all).new_transform(Handler::new());
    let handler = middleware.service();
    let (outcome, log) = drive(&middleware, request(Some("Basic !!!")), Ok(String::new()));
    let error = outcome.unwrap_err();
    assert_eq!(error.kind, AuthErrorKind::InvalidFormat);
    assert_eq!(error.rejection().www_authenticate, b"Basic realm=\"\"".to_vec());
    assert_eq!(log, ["reject"]);
    assert!(handler.try_lock().unwrap().served.is_empty());
}

#[test]
fn the_same_request_is_forwarded_each_time() {
    let middleware = HttpAuthentication::basic(accept_all).new_transform(Handler::new());
    let handler = middleware.service();
    let incoming = request(Some("Basic dGVzdDp0ZXN0"));
    let first = drive(&middleware, incoming.clone(), Ok("one".to_string()));
    let second = drive(&middleware, incoming.clone(), Ok("two".to_string()));
    assert_eq!(first.0, Ok(Ok("one".to_string())));
    assert_eq!(second.0, Ok(Ok("two".to_string())));
    assert_eq!(first.1, second.1);
    let inside = handler.try_lock().unwrap();
    assert_eq!(inside.served, [incoming.clone(), incoming]);
}

#[test]
fn a_failure_of_the_handler_passes_through() {
    let middleware = HttpAuthentication::basic(accept_all).new_transform(Handler::new());
    let handler = middleware.service();
    let (outcome, log) =
        drive(&middleware, request(Some("Basic dGVzdDp0ZXN0")), Err("downstream broke".to_string()));
    assert_eq!(outcome, Ok(Err("downstream broke".to_string())));
    assert_eq!(log, ["validate", "acquire", "dispatch", "release", "complete"]);
}

#[test]
fn the_validator_may_change_the_request() {
    let middleware = HttpAuthentication::basic(|mut request: Request<Context>, credentials: Credentials| {
        if let Credentials::Basic { username, .. } = credentials {
            request.context.push(String::from_utf8(username).unwrap());
        }
        Ok::<Request<Context>, AuthError>(request)
    })
    .new_transform(Handler::new());
    let handler = middleware.service();
    let (outcome, _) = drive(&middleware, request(Some("Basic dGVzdDp0ZXN0")), Ok(String::new()));
    assert!(outcome.is_ok());
    assert_eq!(handler.try_lock().unwrap().served[0].context, ["test"]);
}

/// Takes the steps of a call up to the point where it asks for the handler.
fn validated<F>(
    middleware: &AuthenticationMiddleware<Handler, F>,
    incoming: Request<Context>,
) -> CallState<Context> {
    let (state, action) = middleware.call::<Context, Response>(incoming);
    let request = match action {
        Action::Validate { request, .. } => request,
        other => panic!("expected a validation, found {:?}", other),
    };
    assert_eq!(state, CallState::Validating);
    let (state, action) = middleware.step::<Context, Response>(state, Event::Validated(Ok(request)));
    assert_eq!(action, Action::AcquireHandler);
    state
}

#[test]
fn two_calls_never_share_the_handler() {
    let middleware = HttpAuthentication::basic(accept_all).new_transform(Handler::new());
    let handler = middleware.service();
    let mut first = validated(&middleware, request(Some("Basic dGVzdDp0ZXN0")));
    let mut second = validated(&middleware, request(Some("Basic YTpi")));

    // Both ask for the handler; the lock gives it to one of them.
    let first_guard = handler.try_lock();
    let second_guard = handler.try_lock();
    assert!(first_guard.is_ok());
    assert!(second_guard.is_err());
    let mut first_guard = first_guard.ok();

    let (state, action) = middleware.step::<Context, Response>(first, Event::HandlerAcquired);
    first = state;
    assert!(first.dispatching());
    assert!(!second.dispatching());
    match action {
        Action::Dispatch(request) => first_guard.as_mut().unwrap().enter(request),
        other => panic!("expected a dispatch, found {:?}", other),
    }
    // While the first call is inside, the second cannot get in.
    assert!(handler.try_lock().is_err());
    first_guard.as_mut().unwrap().leave();
    let (state, action) = middleware.step::<Context, Response>(first, Event::Dispatched);
    first = state;
    assert_eq!(action, Action::ReleaseHandler);
    assert!(!first.dispatching());
    drop(first_guard.take());

    // Now the second call gets the handler.
    let mut second_guard = handler.try_lock().expect("the handler is free");
    let (state, action) = middleware.step::<Context, Response>(second, Event::HandlerAcquired);
    second = state;
    assert!(second.dispatching());
    match action {
        Action::Dispatch(request) => second_guard.enter(request),
        other => panic!("expected a dispatch, found {:?}", other),
    }
    second_guard.leave();
    let (state, action) = middleware.step::<Context, Response>(second, Event::Dispatched);
    second = state;
    assert_eq!(action, Action::ReleaseHandler);
    assert_eq!(second_guard.most_in_flight, 1);
    assert_eq!(second_guard.served.len(), 2);
    drop(second_guard);

    // The answers come in the other order, which is nobody's concern.
    let answer: Response = Ok("b".to_string());
    let (second, action) = middleware.step::<Context, Response>(second, Event::Responded(answer.clone()));
    assert_eq!(action, Action::Complete(answer));
    let answer: Response = Ok("a".to_string());
    let (first, action) = middleware.step::<Context, Response>(first, Event::Responded(answer.clone()));
    assert_eq!(action, Action::Complete(answer));
    assert_eq!(first, CallState::Completed);
    assert_eq!(second, CallState::Completed);
}

#[test]
fn a_call_cancelled_in_validation_leaves_the_handler_free() {
    let middleware = HttpAuthentication::basic(accept_all).new_transform(Handler::new());
    let handler = middleware.service();
    let (state, action) = middleware.call::<Context, Response>(request(Some("Basic dGVzdDp0ZXN0")));
    assert!(matches!(action, Action::Validate { .. }));
    let (state, action) = middleware.step::<Context, Response>(state, Event::Cancelled);
    assert_eq!(state, CallState::Cancelled);
    assert_eq!(action, Action::Nothing);
    assert!(state.finished());
    // The validator answers late: nobody listens.
    let late = Event::Validated(Ok(request(Some("Basic dGVzdDp0ZXN0"))));
    let (state, action) = middleware.step::<Context, Response>(state, late);
    assert_eq!(state, CallState::Cancelled);
    assert_eq!(action, Action::Nothing);

    let (outcome, _) = drive(&middleware, request(Some("Basic YTpi")), Ok("next".to_string()));
    assert_eq!(outcome, Ok(Ok("next".to_string())));
}

#[test]
fn a_call_cancelled_while_it_waits_withdraws() {
    let middleware = HttpAuthentication::basic(accept_all).new_transform(Handler::new());
    let waiting = validated(&middleware, request(Some("Basic dGVzdDp0ZXN0")));
    let (state, action) = middleware.step::<Context, Response>(waiting, Event::Cancelled);
    assert_eq!(state, CallState::Cancelled);
    assert_eq!(action, Action::ReleaseHandler);
    let (outcome, _) = drive(&middleware, request(Some("Basic YTpi")), Ok("next".to_string()));
    assert_eq!(outcome, Ok(Ok("next".to_string())));
}

#[test]
fn a_call_cancelled_inside_the_handler_gives_it_up() {
    let middleware = HttpAuthentication::basic(accept_all).new_transform(Handler::new());
    let handler = middleware.service();
    let waiting = validated(&middleware, request(Some("Basic dGVzdDp0ZXN0")));
    let mut guard = handler.try_lock().ok();
    let (state, action) = middleware.step::<Context, Response>(waiting, Event::HandlerAcquired);
    assert!(matches!(action, Action::Dispatch(_)));
    assert!(state.dispatching());
    assert!(handler.try_lock().is_err());
    let (state, action) = middleware.step::<Context, Response>(state, Event::Cancelled);
    assert_eq!(state, CallState::Cancelled);
    assert_eq!(action, Action::ReleaseHandler);
    drop(guard.take());
    let (outcome, _) = drive(&middleware, request(Some("Basic YTpi")), Ok("next".to_string()));
    assert_eq!(outcome, Ok(Ok("next".to_string())));
    assert_eq!(handler.try_lock().unwrap().most_in_flight, 1);
}

#[test]
fn a_call_cancelled_after_dispatch_holds_nothing() {
    let middleware = HttpAuthentication::basic(accept_all).new_transform(Handler::new());
    let (state, action) = middleware.step::<Context, Response>(CallState::AwaitingResponse, Event::Cancelled);
    assert_eq!(state, CallState::Cancelled);
    assert_eq!(action, Action::Nothing);
    let (state, action) = middleware.step::<Context, Response>(CallState::Extracting, Event::Cancelled);
    assert_eq!(state, CallState::Cancelled);
    assert_eq!(action, Action::Nothing);
}

fn every_event() -> Vec<Event<Context, Response>> {
    vec![
        Event::Received(request(Some("Basic dGVzdDp0ZXN0"))),
        Event::Validated(Ok(request(None))),
        Event::Validated(Err(AuthError::rejected(Challenge::new(Scheme::Basic, Vec::new())))),
        Event::HandlerAcquired,
        Event::Dispatched,
        Event::Responded(Ok("late".to_string())),
        Event::Cancelled,
    ]
}

#[test]
fn a_call_that_is_over_asks_for_nothing() {
    let middleware = HttpAuthentication::basic(accept_all).new_transform(Handler::new());
    for make in [|| CallState::Completed, || CallState::Rejected, || CallState::Cancelled] {
        for event in every_event() {
            let state: CallState<Context> = make();
            assert!(state.finished());
            let (after, action) = middleware.step(state, event);
            assert_eq!(after, make());
            assert_eq!(action, Action::Nothing);
        }
    }
}

#[test]
fn an_event_out_of_turn_changes_nothing() {
    let middleware = HttpAuthentication::basic(accept_all).new_transform(Handler::new());
    let fits = |state: &CallState<Context>, event: &Event<Context, Response>| {
        matches!(
            (state, event),
            (_, Event::Cancelled)
                | (CallState::Extracting, Event::Received(_))
                | (CallState::Validating, Event::Validated(_))
                | (CallState::AwaitingHandler { .. }, Event::HandlerAcquired)
                | (CallState::Dispatching, Event::Dispatched)
                | (CallState::AwaitingResponse, Event::Responded(_))
        )
    };
    let states: [fn() -> CallState<Context>; 5] = [
        || CallState::Extracting,
        || CallState::Validating,
        || CallState::AwaitingHandler { request: request(Some("Bearer t")) },
        || CallState::Dispatching,
        || CallState::AwaitingResponse,
    ];
    let mut out_of_turn = 0;
    for make in states {
        for event in every_event() {
            if !fits(&make(), &event) {
                let (after, action) = middleware.step(make(), event);
                assert_eq!(after, make());
                assert_eq!(action, Action::Nothing);
                assert!(!after.finished());
                out_of_turn += 1;
            }
        }
    }
    assert_eq!(out_of_turn, 24);
}

#[test]
fn the_validators_error_is_the_calls_error() {
    let middleware = HttpAuthentication::bearer(accept_all).new_transform(Handler::new());
    let error = AuthError {
        kind: AuthErrorKind::ValidationRejected,
        challenge: Challenge {
            scheme: Scheme::Bearer,
            realm: b"example".to_vec(),
            error: Some(b"insufficient_scope".to_vec()),
            error_description: Some(b"admin only".to_vec()),
            scope: Some(b"admin".to_vec()),
        },
    };
    let (state, action) =
        middleware.step::<Context, Response>(CallState::Validating, Event::Validated(Err(error.clone())));
    assert_eq!(state, CallState::Rejected);
    assert_eq!(action, Action::Reject(error));
}

#[test]
fn the_builders_set_scheme_realm_and_scope() {
    let basic = HttpAuthentication::basic(accept_all).new_transform(Handler::new());
    assert_eq!(basic.config().scheme, Scheme::Basic);
    assert_eq!(basic.config().realm, b"".to_vec());
    assert_eq!(basic.config().scope, None);
    let bearer = HttpAuthentication::bearer(accept_all).new_transform(Handler::new());
    assert_eq!(bearer.config().scheme, Scheme::Bearer);
    let custom = HttpAuthentication::with_fn(Scheme::Bearer, accept_all)
        .realm(b"api".to_vec())
        .scope(b"read".to_vec())
        .new_transform(Handler::new());
    assert_eq!(custom.config().scheme, Scheme::Bearer);
    assert_eq!(custom.config().realm, b"api".to_vec());
    assert_eq!(custom.config().scope, Some(b"read".to_vec()));
    let other = HttpAuthentication::with_fn(Scheme::Basic, accept_all).new_transform(Handler::new());
    assert_eq!(other.config().scheme, Scheme::Basic);
}

#[test]
fn every_interceptor_shares_the_one_validator() {
    let calls = Arc::new(Cell::new(0u32));
    let counter = calls.clone();
    let authentication = HttpAuthentication::basic(move |request: Request<Context>, _: Credentials| {
        counter.set(counter.get() + 1);
        Ok::<Request<Context>, AuthError>(request)
    });
    let first = authentication.new_transform(Handler::new());
    let second = authentication.new_transform(Handler::new());
    assert!(Arc::ptr_eq(&first.process_fn(), &second.process_fn()));
    assert!(Arc::ptr_eq(&first.process_fn(), &first.process_fn()));
    drive(&first, request(Some("Basic dGVzdDp0ZXN0")), Ok(String::new())).0.unwrap().unwrap();
    drive(&second, request(Some("Basic dGVzdDp0ZXN0")), Ok(String::new())).0.unwrap().unwrap();
    assert_eq!(calls.get(), 2);
    drop(authentication);
    drive(&first, request(Some("Basic dGVzdDp0ZXN0")), Ok(String::new())).0.unwrap().unwrap();
    assert_eq!(calls.get(), 3);
}

#[test]
fn every_interceptor_guards_its_own_handler() {
    let authentication = HttpAuthentication::basic(accept_all);
    let first = authentication.new_transform(Handler::new());
    let second = authentication.new_transform(Handler::new());
    // Every handle of one interceptor is a handle on the one lock.
    assert!(Mutex::ptr_eq(&first.service(), &first.service()));
    assert!(!Mutex::ptr_eq(&first.service(), &second.service()));
    let held = first.service().try_lock().expect("a new lock is free");
    assert!(first.service().try_lock().is_err());
    assert!(second.service().try_lock().is_ok());
    drop(held);
    assert!(first.service().try_lock().is_ok());
    drive(&first, request(Some("Basic dGVzdDp0ZXN0")), Ok(String::new())).0.unwrap().unwrap();
    drive(&first, request(Some("Basic dGVzdDp0ZXN0")), Ok(String::new())).0.unwrap().unwrap();
    drive(&second, request(Some("Basic dGVzdDp0ZXN0")), Ok(String::new())).0.unwrap().unwrap();
    assert_eq!(first.service().try_lock().unwrap().served.len(), 2);
    assert_eq!(second.service().try_lock().unwrap().served.len(), 1);
}
