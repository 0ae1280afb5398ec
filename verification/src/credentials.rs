//! Authentication schemes and the credentials that a request carries.

use vstd::prelude::*;

verus! {

/// An authentication scheme of HTTP.
#[derive(Clone, Copy, Debug, PartialEq, Eq, Structural)]
pub enum Scheme {
    Basic,
    Bearer,
}

/// Credentials as they were read from an `Authorization` header.
#[derive(Clone, Debug, PartialEq, Eq)]
pub enum Credentials {
    /// A user name and a password.
    Basic { username: Vec<u8>, password: Vec<u8> },
    /// An opaque token.
    Bearer { token: Vec<u8> },
}

/// What a [`Credentials`] value holds.
pub enum CredentialsView {
    Basic { username: Seq<u8>, password: Seq<u8> },
    Bearer { token: Seq<u8> },
}

impl CredentialsView {
    /// The scheme that these credentials belong to.
    pub open spec fn scheme(self) -> Scheme {
        match self {
            CredentialsView::Basic { .. } => Scheme::Basic,
            CredentialsView::Bearer { .. } => Scheme::Bearer,
        }
    }
}

impl View for Credentials {
    type V = CredentialsView;

    open spec fn view(&self) -> CredentialsView {
        match self {
            Credentials::Basic { username, password } => CredentialsView::Basic {
                username: username@,
                password: password@,
            },
            Credentials::Bearer { token } => CredentialsView::Bearer { token: token@ },
        }
    }
}

impl Credentials {
    /// The scheme that these credentials belong to.
    pub fn scheme(&self) -> (r: Scheme)
        ensures
            r == self@.scheme(),
    {
        match self {
            Credentials::Basic { .. } => Scheme::Basic,
            Credentials::Bearer { .. } => Scheme::Bearer,
        }
    }
}

} // verus!
