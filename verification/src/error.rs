//! Why an endpoint cannot be bound to a request.

use vstd::prelude::*;

verus! {

/// The reasons for which binding an endpoint fails.
#[derive(Clone, Copy, Debug, PartialEq, Eq, Structural)]
pub enum RequestError {
    /// The URL is not an absolute URL.
    InvalidUrl,
    /// The method is none of the supported HTTP verbs.
    UnsupportedMethod,
    /// A header has no name, or holds a control character.
    InvalidHeader,
}

impl RequestError {
    /// The sentence that describes the error.
    pub open spec fn message_text(self) -> Seq<char> {
        match self {
            RequestError::InvalidUrl => "Invalid URL"@,
            RequestError::UnsupportedMethod => "Invalid HTTP verb"@,
            RequestError::InvalidHeader => "Invalid headers state"@,
        }
    }

    /// The sentence that describes the error.
    pub fn message(&self) -> (s: &'static str)
        ensures
            s@ == self.message_text(),
    {
        match self {
            RequestError::InvalidUrl => "Invalid URL",
            RequestError::UnsupportedMethod => "Invalid HTTP verb",
            RequestError::InvalidHeader => "Invalid headers state",
        }
    }
}

} // verus!
