//! Validation of the `ok` envelope that every Slack API response carries.

use vstd::prelude::*;

verus! {

/// A response reported failure.
#[derive(Debug, Clone, PartialEq, Eq)]
pub enum Error {
    /// The response's `ok` field was `false`.
    SlackResponseNotOk,
}

/// A response type that exposes its `ok` envelope field.
pub trait SlackResponseValidator: Sized {
    /// The value of the response's `ok` field.
    spec fn ok_spec(&self) -> Option<bool>;

    /// Reads the response's `ok` field.
    fn ok(&self) -> (r: Option<bool>)
        ensures
            r == self.ok_spec(),
    ;
}

/// Accepts a response exactly when its explicit `ok` field is `true`.
pub fn validate_response<T: SlackResponseValidator>(response: &T) -> (r: Result<(), Error>)
    requires
        response.ok_spec() is Some,
    ensures
        r is Ok <==> response.ok_spec() == Some(true),
        r is Err <==> response.ok_spec() == Some(false),
        r matches Err(e) ==> e == Error::SlackResponseNotOk,
{
    match response.ok() {
        Some(true) => Ok(()),
        _ => Err(Error::SlackResponseNotOk),
    }
}

} // verus!
