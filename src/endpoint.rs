use vstd::prelude::*;

verus! {

/// Whether a string is an absolute URL, as the `url` crate parses one.
pub uninterp spec fn parses_as_url(s: Seq<char>) -> bool;

#[verifier::external_type_specification]
#[verifier::external_body]
pub struct ExUrl(url::Url);

#[verifier::external_type_specification]
#[verifier::external_body]
pub struct ExParseError(url::ParseError);

/// Relies on `url::Url::parse`: it succeeds exactly on the strings that are
/// absolute URLs, which depends on the string alone.
pub assume_specification[ url::Url::parse ](input: &str) -> (r: Result<url::Url, url::ParseError>)
    ensures
        r is Ok <==> parses_as_url(input@),
;

/// Why a connection could not be opened.
#[derive(Debug, Clone, Copy, PartialEq, Eq, Structural)]
pub enum OpenError {
    /// The endpoint is not a well-formed absolute URL.
    Endpoint,
    /// The endpoint is well formed, but no connection to it could be made.
    Connection,
}

/// An endpoint to connect to: a well-formed absolute URL.
#[derive(Debug)]
pub struct Endpoint {
    pub url: url::Url,
}

impl Endpoint {
    /// Checks an endpoint before anything is started: a malformed one is
    /// refused with `OpenError::Endpoint`, a well-formed one is kept parsed.
    pub fn new(endpoint: &str) -> (r: Result<Endpoint, OpenError>)
        ensures
            match r {
                Ok(_) => parses_as_url(endpoint@),
                Err(e) => !parses_as_url(endpoint@) && e == OpenError::Endpoint,
            },
    {
        match url::Url::parse(endpoint) {
            Ok(url) => Ok(Endpoint { url }),
            Err(_) => Err(OpenError::Endpoint),
        }
    }
}

} // verus!
