//! Authentication errors and the challenge that a rejection carries.

use vstd::prelude::*;
use vstd::slice::slice_to_vec;
use crate::ascii::{push_text, text};
use crate::credentials::Scheme;

verus! {

/// The status of every rejection: 401, Unauthorized.
pub const UNAUTHORIZED: u16 = 401;

/// What a `WWW-Authenticate` header tells the client: the scheme, the realm,
/// and whichever of the optional fields are present.
#[derive(Clone, Debug, PartialEq, Eq)]
pub struct Challenge {
    pub scheme: Scheme,
    pub realm: Vec<u8>,
    pub error: Option<Vec<u8>>,
    pub error_description: Option<Vec<u8>>,
    pub scope: Option<Vec<u8>>,
}

/// What a [`Challenge`] holds.
pub struct ChallengeView {
    pub scheme: Scheme,
    pub realm: Seq<u8>,
    pub error: Option<Seq<u8>>,
    pub error_description: Option<Seq<u8>>,
    pub scope: Option<Seq<u8>>,
}

/// The view of an optional byte string.
pub open spec fn optional(v: Option<Vec<u8>>) -> Option<Seq<u8>> {
    match v {
        Some(b) => Some(b@),
        None => None,
    }
}

/// The name of a scheme as it is written in a header.
pub open spec fn scheme_name(scheme: Scheme) -> Seq<u8> {
    match scheme {
        Scheme::Basic => text("Basic"@),
        Scheme::Bearer => text("Bearer"@),
    }
}

/// An optional field of a challenge: `, key="value"` where the value is
/// present, nothing where it is not.
pub open spec fn parameter(key: Seq<char>, value: Option<Seq<u8>>) -> Seq<u8> {
    match value {
        Some(v) => text(", "@) + text(key) + text("=\""@) + v + text("\""@),
        None => Seq::empty(),
    }
}

impl ChallengeView {
    /// The value of the `WWW-Authenticate` header: the scheme and the realm,
    /// then the optional fields that are present, in the order error,
    /// error description, scope.
    pub open spec fn rendered(self) -> Seq<u8> {
        scheme_name(self.scheme) + text(" realm=\""@) + self.realm + text("\""@) + parameter(
            "error"@,
            self.error,
        ) + parameter("error_description"@, self.error_description) + parameter(
            "scope"@,
            self.scope,
        )
    }
}

impl View for Challenge {
    type V = ChallengeView;

    open spec fn view(&self) -> ChallengeView {
        ChallengeView {
            scheme: self.scheme,
            realm: self.realm@,
            error: optional(self.error),
            error_description: optional(self.error_description),
            scope: optional(self.scope),
        }
    }
}

/// Appends the optional field `key` to `out`.
fn push_parameter(out: &mut Vec<u8>, key: &str, value: &Option<Vec<u8>>)
    requires
        vstd::string::is_ascii(key),
    ensures
        final(out)@ == old(out)@ + parameter(key@, optional(*value)),
{
    match value {
        Some(v) => {
            proof {
                reveal_strlit(", ");
                reveal_strlit("=\"");
                reveal_strlit("\"");
            }
            push_text(out, ", ");
            push_text(out, key);
            push_text(out, "=\"");
            out.extend_from_slice(v.as_slice());
            push_text(out, "\"");
            assert(out@ =~= old(out)@ + parameter(key@, optional(*value)));
        },
        None => {
            assert(out@ =~= old(out)@ + parameter(key@, optional(*value)));
        },
    }
}

impl Challenge {
    /// A challenge for `scheme` with this realm and no optional field.
    pub fn new(scheme: Scheme, realm: Vec<u8>) -> (r: Self)
        ensures
            r@ == (ChallengeView {
                scheme,
                realm: realm@,
                error: None,
                error_description: None,
                scope: None,
            }),
    {
        Challenge { scheme, realm, error: None, error_description: None, scope: None }
    }

    /// The value of the `WWW-Authenticate` header that states this challenge.
    pub fn header_value(&self) -> (r: Vec<u8>)
        ensures
            r@ == self@.rendered(),
    {
        let mut out: Vec<u8> = Vec::new();
        proof {
            reveal_strlit("Basic");
            reveal_strlit("Bearer");
            reveal_strlit(" realm=\"");
            reveal_strlit("\"");
            reveal_strlit("error");
            reveal_strlit("error_description");
            reveal_strlit("scope");
        }
        match self.scheme {
            Scheme::Basic => push_text(&mut out, "Basic"),
            Scheme::Bearer => push_text(&mut out, "Bearer"),
        }
        assert(out@ =~= scheme_name(self.scheme));
        push_text(&mut out, " realm=\"");
        out.extend_from_slice(self.realm.as_slice());
        push_text(&mut out, "\"");
        push_parameter(&mut out, "error", &self.error);
        push_parameter(&mut out, "error_description", &self.error_description);
        push_parameter(&mut out, "scope", &self.scope);
        out
    }
}

/// Why a request was turned away.
#[derive(Clone, Copy, Debug, PartialEq, Eq, Structural)]
pub enum AuthErrorKind {
    /// The request has no `Authorization` header.
    MissingHeader,
    /// The header is there, but is not what the scheme asks for.
    InvalidFormat,
    /// The validator declined the credentials.
    ValidationRejected,
}

/// An authentication failure: its kind and the challenge to answer with.
#[derive(Clone, Debug, PartialEq, Eq)]
pub struct AuthError {
    pub kind: AuthErrorKind,
    pub challenge: Challenge,
}

/// What an [`AuthError`] holds.
pub struct AuthErrorView {
    pub kind: AuthErrorKind,
    pub challenge: ChallengeView,
}

impl View for AuthError {
    type V = AuthErrorView;

    open spec fn view(&self) -> AuthErrorView {
        AuthErrorView { kind: self.kind, challenge: self.challenge@ }
    }
}

/// The response that turns a request away.
#[derive(Clone, Debug, PartialEq, Eq)]
pub struct Rejection {
    /// The status code.
    pub status: u16,
    /// The value of the `WWW-Authenticate` header.
    pub www_authenticate: Vec<u8>,
}

impl Rejection {
    /// The header of the response, name and value: `WWW-Authenticate: ` and
    /// the challenge.
    pub fn header_line(&self) -> (r: Vec<u8>)
        ensures
            r@ == text("WWW-Authenticate: "@) + self.www_authenticate@,
    {
        let mut out: Vec<u8> = Vec::new();
        proof {
            reveal_strlit("WWW-Authenticate: ");
        }
        push_text(&mut out, "WWW-Authenticate: ");
        out.extend_from_slice(self.www_authenticate.as_slice());
        out
    }
}

impl AuthError {
    /// The error of a validator that declines the credentials, with the
    /// challenge that it chose.
    pub fn rejected(challenge: Challenge) -> (r: Self)
        ensures
            r.kind == AuthErrorKind::ValidationRejected,
            r.challenge == challenge,
    {
        AuthError { kind: AuthErrorKind::ValidationRejected, challenge }
    }

    /// The response for this error: status 401 and the challenge.
    pub fn rejection(&self) -> (r: Rejection)
        ensures
            r.status == UNAUTHORIZED,
            r.www_authenticate@ == self@.challenge.rendered(),
    {
        Rejection { status: UNAUTHORIZED, www_authenticate: self.challenge.header_value() }
    }
}

/// A copy of an optional byte string.
pub(crate) fn copy_optional(v: &Option<Vec<u8>>) -> (r: Option<Vec<u8>>)
    ensures
        optional(r) == optional(*v),
{
    match v {
        Some(b) => Some(slice_to_vec(b.as_slice())),
        None => None,
    }
}

} // verus!
