//! The ways in which reading a user's records can fail.

use vstd::prelude::*;

verus! {

/// Calls std's `String::push_str`. Trusted: the text is added at the end of
/// the target, which is otherwise unchanged.
#[verifier::external_body]
pub(crate) fn append(target: &mut String, text: &str)
    ensures
        final(target)@ == old(target)@ + text@,
{
    target.push_str(text)
}

/// A failure of one way of reading the records.
#[derive(Debug)]
pub enum GhHeatError {
    /// The request did not get through; the text says why.
    Network(String),
    /// The service answered with a failure; the text is its own.
    Api(String),
    /// The answer could not be read.
    Parse(String),
    /// A text that should be a date is none; the text is that text.
    InvalidDate(String),
    /// The service refused the request for now.
    RateLimit,
    /// Any other failure.
    Other(String),
}

impl GhHeatError {
    /// What the failure's message begins with.
    pub open spec fn prefix_spec(&self) -> Seq<char> {
        match self {
            GhHeatError::Network(_) => "Network error: "@,
            GhHeatError::Api(_) => "GitHub API error: "@,
            GhHeatError::Parse(_) => "Failed to parse data: "@,
            GhHeatError::InvalidDate(_) => "Invalid date format: "@,
            GhHeatError::RateLimit => "Rate limit exceeded. Please try again later."@,
            GhHeatError::Other(_) => ""@,
        }
    }

    /// The text that the failure carries, empty where it carries none.
    pub open spec fn detail_spec(&self) -> Seq<char> {
        match self {
            GhHeatError::Network(text) => text@,
            GhHeatError::Api(text) => text@,
            GhHeatError::Parse(text) => text@,
            GhHeatError::InvalidDate(text) => text@,
            GhHeatError::RateLimit => ""@,
            GhHeatError::Other(text) => text@,
        }
    }

    /// The failure in words: what kind it is, then the text it carries.
    pub fn message(&self) -> (r: String)
        ensures
            r@ == self.prefix_spec() + self.detail_spec(),
    {
        let mut out = String::new();
        match self {
            GhHeatError::Network(text) => {
                append(&mut out, "Network error: ");
                append(&mut out, text.as_str());
            },
            GhHeatError::Api(text) => {
                append(&mut out, "GitHub API error: ");
                append(&mut out, text.as_str());
            },
            GhHeatError::Parse(text) => {
                append(&mut out, "Failed to parse data: ");
                append(&mut out, text.as_str());
            },
            GhHeatError::InvalidDate(text) => {
                append(&mut out, "Invalid date format: ");
                append(&mut out, text.as_str());
            },
            GhHeatError::RateLimit => {
                append(&mut out, "Rate limit exceeded. Please try again later.");
                append(&mut out, "");
            },
            GhHeatError::Other(text) => {
                append(&mut out, "");
                append(&mut out, text.as_str());
            },
        }
        proof {
            assert(out@ =~= self.prefix_spec() + self.detail_spec());
        }
        out
    }
}

} // verus!
