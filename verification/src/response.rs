use vstd::prelude::*;

verus! {

/// A response as the hooks of the simple broker see it.
#[derive(Debug)]
pub struct Response {
    pub status_code: u16,
    pub headers: Vec<(String, String)>,
    pub body: Vec<u8>,
}

impl Response {
    /// Creates a response from its status code, headers and body.
    pub fn new(status_code: u16, headers: Vec<(String, String)>, body: Vec<u8>) -> (response: Self)
        ensures
            response.status_code == status_code,
            response.headers == headers,
            response.body == body,
    {
        Self { status_code, headers, body }
    }
}

} // verus!
