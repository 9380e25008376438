//! User-facing error type for credential validation.

use vstd::prelude::*;
use vstd::string::StringExecFns;

verus! {

/// A credential failed its prefix check; carries the offending value.
#[derive(Debug, Clone, PartialEq, Eq)]
pub enum SlackHttpClientError {
    InvalidApiToken(String),
    InvalidApiCookie(String),
}

impl SlackHttpClientError {
    /// A display string for the error.
    pub fn message(&self) -> (r: String)
        ensures
            match self {
                SlackHttpClientError::InvalidApiToken(m) => r@ == "Provided api token was invalid: "@
                    + m@,
                SlackHttpClientError::InvalidApiCookie(m) => r@
                    == "Provided api cookie was invalid: "@ + m@,
            },
    {
        match self {
            SlackHttpClientError::InvalidApiToken(m) => {
                let mut s = "Provided api token was invalid: ".to_owned();
                s.append(m.as_str());
                s
            },
            SlackHttpClientError::InvalidApiCookie(m) => {
                let mut s = "Provided api cookie was invalid: ".to_owned();
                s.append(m.as_str());
                s
            },
        }
    }
}

} // verus!
