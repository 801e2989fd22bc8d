use vstd::prelude::*;

verus! {

/// A request as the hooks of the simple broker see it.
#[derive(Debug)]
pub struct Request {
    pub headers: Vec<(String, String)>,
    pub body: Vec<u8>,
}

impl Request {
    /// Creates a request from its headers and body.
    pub fn new(headers: Vec<(String, String)>, body: Vec<u8>) -> (request: Self)
        ensures
            request.headers == headers,
            request.body == body,
    {
        Self { headers, body }
    }
}

} // verus!
