//! Reading credentials out of a request's `Authorization` header.

use vstd::prelude::*;
use vstd::slice::{slice_subrange, slice_to_vec};
use crate::ascii::{
    bytes_eq, copy_range, eq_ignore_ascii_case, eq_ignore_case, find, first_index, is_space,
    lemma_first_index, lemma_trim_is_identity, text, text_of, trim, trimmed,
};
use crate::base64::{decode, decoded, encoded, lemma_decode_encode};
use crate::challenge::{
    copy_optional, optional, AuthError, AuthErrorKind, Challenge, ChallengeView,
};
use crate::credentials::{Credentials, CredentialsView, Scheme};
use crate::request::{lemma_lookup, lookup, Request};

verus! {

/// What an extractor is set up with: the scheme it reads, and the realm and
/// scope of the challenge that answers a request without usable credentials.
#[derive(Clone, Debug, PartialEq, Eq)]
pub struct Config {
    pub scheme: Scheme,
    pub realm: Vec<u8>,
    pub scope: Option<Vec<u8>>,
}

/// What a [`Config`] holds.
pub struct ConfigView {
    pub scheme: Scheme,
    pub realm: Seq<u8>,
    pub scope: Option<Seq<u8>>,
}

impl ConfigView {
    /// The challenge for a request without usable credentials: the scheme and
    /// the realm, and for Bearer the scope. Basic has no scope.
    pub open spec fn challenge(self) -> ChallengeView {
        ChallengeView {
            scheme: self.scheme,
            realm: self.realm,
            error: None,
            error_description: None,
            scope: match self.scheme {
                Scheme::Basic => None,
                Scheme::Bearer => self.scope,
            },
        }
    }
}

impl View for Config {
    type V = ConfigView;

    open spec fn view(&self) -> ConfigView {
        ConfigView { scheme: self.scheme, realm: self.realm@, scope: optional(self.scope) }
    }
}

impl Config {
    /// The configuration for `scheme` with an empty realm and no scope.
    pub fn new(scheme: Scheme) -> (r: Self)
        ensures
            r@ == (ConfigView { scheme, realm: Seq::empty(), scope: None }),
    {
        Config { scheme, realm: Vec::new(), scope: None }
    }

    /// This configuration with another realm.
    pub fn realm(self, realm: Vec<u8>) -> (r: Self)
        ensures
            r@ == (ConfigView { realm: realm@, ..self@ }),
    {
        Config { scheme: self.scheme, realm, scope: self.scope }
    }

    /// This configuration with a scope.
    pub fn scope(self, scope: Vec<u8>) -> (r: Self)
        ensures
            r@ == (ConfigView { scope: Some(scope@), ..self@ }),
    {
        Config { scheme: self.scheme, realm: self.realm, scope: Some(scope) }
    }

    /// A copy of this configuration.
    pub fn duplicate(&self) -> (r: Self)
        ensures
            r@ == self@,
    {
        Config {
            scheme: self.scheme,
            realm: slice_to_vec(self.realm.as_slice()),
            scope: copy_optional(&self.scope),
        }
    }

    /// The challenge for a request without usable credentials.
    pub fn challenge(&self) -> (r: Challenge)
        ensures
            r@ == self@.challenge(),
    {
        Challenge {
            scheme: self.scheme,
            realm: slice_to_vec(self.realm.as_slice()),
            error: None,
            error_description: None,
            scope: match self.scheme {
                Scheme::Basic => None,
                Scheme::Bearer => copy_optional(&self.scope),
            },
        }
    }
}

/// The name of the header that carries the credentials.
pub open spec fn authorization() -> Seq<u8> {
    text("Authorization"@)
}

/// The separator between user name and password, `:`.
pub open spec fn colon() -> u8 {
    ':' as u8
}

/// The user name and password in decoded Basic credentials: what stands
/// before the first `:` and what stands behind it.
pub open spec fn split(userpass: Seq<u8>) -> Option<CredentialsView> {
    let i = first_index(userpass, colon());
    if i < userpass.len() {
        Some(CredentialsView::Basic { username: userpass.take(i), password: userpass.skip(i + 1) })
    } else {
        None
    }
}

/// The credentials in a Basic header value: the scheme's name in any case, a
/// space, and the Base64 text of `username:password`.
pub open spec fn parsed_basic(value: Seq<u8>) -> Option<CredentialsView> {
    if value.len() >= 6 && eq_ignore_case(value.take(6), text("Basic "@)) {
        match decoded(value.skip(6)) {
            Some(userpass) => split(userpass),
            None => None,
        }
    } else {
        None
    }
}

/// The credentials in a Bearer header value: the scheme's name, a space, and
/// the token, which is the rest without the white space around it.
pub open spec fn parsed_bearer(value: Seq<u8>) -> Option<CredentialsView> {
    if value.len() >= 7 && value.take(7) == text("Bearer "@) {
        Some(CredentialsView::Bearer { token: trim(value.skip(7)) })
    } else {
        None
    }
}

/// The credentials in a header value, read as `scheme` asks.
pub open spec fn parsed(value: Seq<u8>, scheme: Scheme) -> Option<CredentialsView> {
    match scheme {
        Scheme::Basic => parsed_basic(value),
        Scheme::Bearer => parsed_bearer(value),
    }
}

/// What extraction makes of a list of headers: the credentials in the first
/// `Authorization` header, or the kind of failure.
pub open spec fn extracted(headers: Seq<(Seq<u8>, Seq<u8>)>, scheme: Scheme) -> Result<
    CredentialsView,
    AuthErrorKind,
> {
    match lookup(headers, authorization()) {
        None => Err(AuthErrorKind::MissingHeader),
        Some(value) => match parsed(value, scheme) {
            Some(credentials) => Ok(credentials),
            None => Err(AuthErrorKind::InvalidFormat),
        },
    }
}

/// Whether one of `headers` is an `Authorization` header.
pub open spec fn has_authorization(headers: Seq<(Seq<u8>, Seq<u8>)>) -> bool {
    exists|i: int| 0 <= i < headers.len() && eq_ignore_case(#[trigger] headers[i].0, authorization())
}

/// The value of a Basic header for a user name and a password.
pub open spec fn basic_value(username: Seq<u8>, password: Seq<u8>) -> Seq<u8> {
    text("Basic "@) + encoded(username + seq![colon()] + password)
}

/// The value of a Bearer header for a token.
pub open spec fn bearer_value(token: Seq<u8>) -> Seq<u8> {
    text("Bearer "@) + token
}

/// Without an `Authorization` header extraction fails with `MissingHeader`,
/// and with one it never does.
pub proof fn lemma_missing_header(headers: Seq<(Seq<u8>, Seq<u8>)>, scheme: Scheme)
    ensures
        !has_authorization(headers) <==> extracted(headers, scheme) == Err::<
            CredentialsView,
            AuthErrorKind,
        >(AuthErrorKind::MissingHeader),
{
    lemma_lookup(headers, authorization());
}

/// Decoded Basic credentials split at their first `:`, so a user name without
/// `:` and any password come back from `username:password`.
pub proof fn lemma_split_joined(username: Seq<u8>, password: Seq<u8>)
    requires
        !username.contains(colon()),
    ensures
        split(username + seq![colon()] + password) == Some(
            CredentialsView::Basic { username, password },
        ),
{
    let joined = username + seq![colon()] + password;
    let n = username.len() as int;
    lemma_first_index(joined, colon());
    let i = first_index(joined, colon());
    assert(joined[n] == colon());
    if i < n {
        assert(username[i] == joined[i]);
    }
    assert(i == n);
    assert(joined.take(i) =~= username);
    assert(joined.skip(i + 1) =~= password);
}

/// Basic round trip: where the `Authorization` header is `Basic ` and the
/// Base64 text of `username:password`, extraction gives back that user name
/// and that password, whatever the password holds. (A user name with `:` in
/// it cannot be told from a shorter one.)
pub proof fn lemma_basic_round_trip(
    headers: Seq<(Seq<u8>, Seq<u8>)>,
    username: Seq<u8>,
    password: Seq<u8>,
)
    requires
        lookup(headers, authorization()) == Some(basic_value(username, password)),
        !username.contains(colon()),
    ensures
        extracted(headers, Scheme::Basic) == Ok::<CredentialsView, AuthErrorKind>(
            CredentialsView::Basic { username, password },
        ),
{
    let joined = username + seq![colon()] + password;
    let value = basic_value(username, password);
    reveal_strlit("Basic ");
    assert(text("Basic "@).len() == 6);
    assert(value.take(6) =~= text("Basic "@));
    assert(value.skip(6) =~= encoded(joined));
    lemma_decode_encode(joined);
    lemma_split_joined(username, password);
}

/// Bearer: where the `Authorization` header is `Bearer ` and a token that
/// neither starts nor ends with white space, extraction gives that token, the
/// empty one included.
pub proof fn lemma_bearer_token(headers: Seq<(Seq<u8>, Seq<u8>)>, token: Seq<u8>)
    requires
        lookup(headers, authorization()) == Some(bearer_value(token)),
        token.len() > 0 ==> !is_space(token.first()) && !is_space(token.last()),
    ensures
        extracted(headers, Scheme::Bearer) == Ok::<CredentialsView, AuthErrorKind>(
            CredentialsView::Bearer { token },
        ),
{
    let value = bearer_value(token);
    reveal_strlit("Bearer ");
    assert(text("Bearer "@).len() == 7);
    assert(value.take(7) =~= text("Bearer "@));
    assert(value.skip(7) =~= token);
    lemma_trim_is_identity(token);
}

/// A Basic header whose text after the scheme is not Base64, or decodes to
/// something without `:`, is answered with `InvalidFormat`; so is one that
/// does not start with the scheme.
pub proof fn lemma_malformed_basic(headers: Seq<(Seq<u8>, Seq<u8>)>, value: Seq<u8>)
    requires
        lookup(headers, authorization()) == Some(value),
        ({
            ||| value.len() < 6
            ||| !eq_ignore_case(value.take(6), text("Basic "@))
            ||| decoded(value.skip(6)).is_none()
            ||| !decoded(value.skip(6)).unwrap().contains(colon())
        }),
    ensures
        extracted(headers, Scheme::Basic) == Err::<CredentialsView, AuthErrorKind>(
            AuthErrorKind::InvalidFormat,
        ),
{
    if value.len() >= 6 && decoded(value.skip(6)).is_some() {
        lemma_first_index(decoded(value.skip(6)).unwrap(), colon());
    }
}

/// Reads Basic credentials from a header value.
pub fn parse_basic(value: &[u8]) -> (r: Option<Credentials>)
    ensures
        match r {
            Some(c) => parsed_basic(value@) == Some(c@),
            None => parsed_basic(value@).is_none(),
        },
{
    proof {
        reveal_strlit("Basic ");
    }
    if value.len() < 6 {
        return None;
    }
    if !eq_ignore_ascii_case(slice_subrange(value, 0, 6), text_of("Basic ")) {
        return None;
    }
    assert(value@.skip(6) =~= value@.subrange(6, value@.len() as int));
    match decode(slice_subrange(value, 6, value.len())) {
        None => None,
        Some(userpass) => {
            let i = find(userpass.as_slice(), ':' as u8);
            proof {
                lemma_first_index(userpass@, colon());
            }
            if i < userpass.len() {
                let username = copy_range(userpass.as_slice(), 0, i);
                let password = copy_range(userpass.as_slice(), i + 1, userpass.len());
                Some(Credentials::Basic { username, password })
            } else {
                None
            }
        },
    }
}

/// Reads a Bearer token from a header value.
pub fn parse_bearer(value: &[u8]) -> (r: Option<Credentials>)
    ensures
        match r {
            Some(c) => parsed_bearer(value@) == Some(c@),
            None => parsed_bearer(value@).is_none(),
        },
{
    proof {
        reveal_strlit("Bearer ");
    }
    if value.len() < 7 {
        return None;
    }
    if !bytes_eq(slice_subrange(value, 0, 7), text_of("Bearer ")) {
        return None;
    }
    assert(value@.skip(7) =~= value@.subrange(7, value@.len() as int));
    let token = trimmed(slice_subrange(value, 7, value.len()));
    Some(Credentials::Bearer { token })
}

/// Reads the credentials that `config` asks for from the `Authorization`
/// header of `request`.
///
/// Without such a header the error is `MissingHeader`; with a header that the
/// scheme cannot read it is `InvalidFormat`. Either error carries the
/// challenge of `config`.
pub fn extract<C>(request: &Request<C>, config: &Config) -> (r: Result<Credentials, AuthError>)
    ensures
        match r {
            Ok(c) => extracted(request.headers@, config.scheme) == Ok::<
                CredentialsView,
                AuthErrorKind,
            >(c@),
            Err(e) => extracted(request.headers@, config.scheme) == Err::<
                CredentialsView,
                AuthErrorKind,
            >(e.kind) && e.challenge@ == config@.challenge(),
        },
{
    proof {
        reveal_strlit("Authorization");
    }
    let value = match request.headers.get(text_of("Authorization")) {
        Some(v) => v,
        None => {
            return Err(
                AuthError { kind: AuthErrorKind::MissingHeader, challenge: config.challenge() },
            );
        },
    };
    let credentials = match config.scheme {
        Scheme::Basic => parse_basic(value.as_slice()),
        Scheme::Bearer => parse_bearer(value.as_slice()),
    };
    match credentials {
        Some(c) => Ok(c),
        None => Err(AuthError { kind: AuthErrorKind::InvalidFormat, challenge: config.challenge() }),
    }
}

} // verus!
