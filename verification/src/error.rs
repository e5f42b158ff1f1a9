//! Errors of OIDC authentication.

use vstd::prelude::*;
use vstd::string::StringExecFns;

verus! {

/// Why a token was not accepted. These are for the operator: a client that is
/// not authenticated never sees them.
#[derive(Debug, PartialEq, Eq)]
pub enum OidcError {
    /// The token header does not name a key.
    MissingKid,
    /// The key is for an algorithm that does not sign tokens here.
    UnsupportedAlgorithm(String),
    /// The signing key could not be obtained.
    KeyFetch(String),
    /// The signature does not match.
    InvalidSignature,
    /// The token is malformed or its claims were refused.
    InvalidClaims(String),
}

/// An `OidcError` with its texts as sequences of characters.
pub enum OidcErrorView {
    MissingKid,
    UnsupportedAlgorithm(Seq<char>),
    KeyFetch(Seq<char>),
    InvalidSignature,
    InvalidClaims(Seq<char>),
}

impl View for OidcError {
    type V = OidcErrorView;

    open spec fn view(&self) -> OidcErrorView {
        match *self {
            OidcError::MissingKid => OidcErrorView::MissingKid,
            OidcError::UnsupportedAlgorithm(text) => OidcErrorView::UnsupportedAlgorithm(text@),
            OidcError::KeyFetch(text) => OidcErrorView::KeyFetch(text@),
            OidcError::InvalidSignature => OidcErrorView::InvalidSignature,
            OidcError::InvalidClaims(text) => OidcErrorView::InvalidClaims(text@),
        }
    }
}

impl OidcErrorView {
    /// The line that reports the error.
    pub open spec fn line(self) -> Seq<char> {
        match self {
            OidcErrorView::MissingKid => "missing `kid` in JWT header"@,
            OidcErrorView::UnsupportedAlgorithm(text) => "unsupported algorithm: "@ + text,
            OidcErrorView::KeyFetch(text) => "key fetch failed: "@ + text,
            OidcErrorView::InvalidSignature => "signature verification failed"@,
            OidcErrorView::InvalidClaims(text) => "claim validation failed: "@ + text,
        }
    }
}

/// A result with the view of its error.
pub open spec fn viewed<T>(result: Result<T, OidcError>) -> Result<T, OidcErrorView> {
    match result {
        Ok(value) => Ok(value),
        Err(error) => Err(error@),
    }
}

/// A result with the text of its value and the view of its error.
pub open spec fn viewed_text(result: Result<String, OidcError>) -> Result<
    Seq<char>,
    OidcErrorView,
> {
    match result {
        Ok(value) => Ok(value@),
        Err(error) => Err(error@),
    }
}

impl OidcError {
    /// The line that reports the error.
    pub fn message(&self) -> (line: String)
        ensures
            line@ == self@.line(),
    {
        match self {
            OidcError::MissingKid => "missing `kid` in JWT header".to_owned(),
            OidcError::UnsupportedAlgorithm(text) => joined("unsupported algorithm: ", text),
            OidcError::KeyFetch(text) => joined("key fetch failed: ", text),
            OidcError::InvalidSignature => "signature verification failed".to_owned(),
            OidcError::InvalidClaims(text) => joined("claim validation failed: ", text),
        }
    }
}

/// `first` followed by `second`.
pub(crate) fn joined(first: &str, second: &str) -> (text: String)
    ensures
        text@ == first@ + second@,
{
    let mut text = first.to_owned();
    text.append(second);
    text
}


/// Every error reports in a line of its own kind, followed by its own text.
pub proof fn law_error_lines(error: OidcError)
    ensures
        match error {
            OidcError::MissingKid => error@.line() == "missing `kid` in JWT header"@,
            OidcError::UnsupportedAlgorithm(text) => error@.line() == "unsupported algorithm: "@
                + text@,
            OidcError::KeyFetch(text) => error@.line() == "key fetch failed: "@ + text@,
            OidcError::InvalidSignature => error@.line() == "signature verification failed"@,
            OidcError::InvalidClaims(text) => error@.line() == "claim validation failed: "@ + text@,
        },
{
}

/// The view of an error is the error with the texts as they are, and the views of
/// a result keep which of the two it is.
pub proof fn law_error_views(error: OidcError, result: Result<String, OidcError>)
    ensures
        error@ == (match error {
            OidcError::MissingKid => OidcErrorView::MissingKid,
            OidcError::UnsupportedAlgorithm(text) => OidcErrorView::UnsupportedAlgorithm(text@),
            OidcError::KeyFetch(text) => OidcErrorView::KeyFetch(text@),
            OidcError::InvalidSignature => OidcErrorView::InvalidSignature,
            OidcError::InvalidClaims(text) => OidcErrorView::InvalidClaims(text@),
        }),
        result matches Ok(value) ==> viewed(result) == Ok::<String, OidcErrorView>(value)
            && viewed_text(result) == Ok::<Seq<char>, OidcErrorView>(value@),
        result matches Err(cause) ==> viewed(result) == Err::<String, OidcErrorView>(cause@)
            && viewed_text(result) == Err::<Seq<char>, OidcErrorView>(cause@),
{
}

} // verus!
