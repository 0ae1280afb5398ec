//! HTTP authentication for a request pipeline, apart from any web framework.
//!
//! An interceptor stands in front of a handler. It reads Basic or Bearer
//! credentials from the `Authorization` header of each request, lets a
//! validator of the caller's decide on them, and forwards what the validator
//! accepts. Everything else is answered with status 401 and a
//! `WWW-Authenticate` challenge.
//!
//! - [`extractors`] reads the credentials; [`base64`] and [`ascii`] are what
//!   it reads them with.
//! - [`challenge`] holds the errors and renders the challenge.
//! - [`middleware`] is the interceptor: its configuration, and the steps of
//!   one call as a state machine.
//! - [`trace`] states what holds of every call, and [`instance`] what holds
//!   of many calls that share one handler.

pub mod ascii;
pub mod base64;
pub mod challenge;
pub mod credentials;
pub mod extractors;
pub mod instance;
pub mod middleware;
pub mod request;
pub mod trace;
