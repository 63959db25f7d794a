//! The error a client reports when a request to the server fails.

use vstd::prelude::*;

verus! {

/// A failed request, with the message that says why.
#[derive(Debug)]
pub struct ApiError(String);

impl View for ApiError {
    type V = Seq<char>;

    closed spec fn view(&self) -> Seq<char> {
        self.0@
    }
}

impl ApiError {
    /// An error that carries `msg`.
    pub fn new(msg: String) -> (error: Self)
        ensures
            error@ == msg@,
    {
        ApiError(msg)
    }

    /// The message this error carries.
    pub fn to_string(&self) -> (msg: String)
        ensures
            msg@ == self@,
    {
        self.0.clone()
    }
}

} // verus!
