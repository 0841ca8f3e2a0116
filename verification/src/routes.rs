//! The answers of the service. A handler here takes what the transport
//! has already unwrapped (path parameters, the caller's identity, the
//! outcome of opening a table) and says what goes back.

pub mod admin;
pub mod v1;

use vstd::prelude::*;
use vstd::string::*;
use crate::error::Error;
use crate::json::text_pairs;

verus! {

/// What goes back to a client.
#[derive(Debug, PartialEq, Eq)]
pub struct Response {
    pub status: u16,
    /// Header names with their values, in the order they were set.
    pub headers: Vec<(String, String)>,
    pub body: String,
}

/// What a `Response` holds, as plain values.
pub struct ResponseView {
    pub status: u16,
    pub headers: Seq<(Seq<char>, Seq<char>)>,
    pub body: Seq<char>,
}

impl View for Response {
    type V = ResponseView;

    open spec fn view(&self) -> ResponseView {
        ResponseView {
            status: self.status,
            headers: text_pairs(self.headers@),
            body: self.body@,
        }
    }
}

/// The answer to a request that failed: the status of the failure, no
/// header, no body.
pub open spec fn failure_view(e: Error) -> ResponseView {
    ResponseView { status: e.status(), headers: Seq::empty(), body: Seq::empty() }
}

/// A successful answer with a body and no header.
pub open spec fn ok_view(body: Seq<char>) -> ResponseView {
    ResponseView { status: 200, headers: Seq::empty(), body }
}

/// The answer that sends the client on to `location`.
pub open spec fn redirect_view(location: Seq<char>) -> ResponseView {
    ResponseView { status: 302, headers: seq![("Location"@, location)], body: Seq::empty() }
}

/// Answers a request that failed.
pub fn failure(e: Error) -> (response: Response)
    ensures
        response@ == failure_view(e),
{
    let response = Response { status: e.status(), headers: Vec::new(), body: String::new() };
    assert(response@.headers =~= Seq::empty());
    response
}

/// Answers a request with a body.
pub fn ok(body: String) -> (response: Response)
    ensures
        response@ == ok_view(body@),
{
    let response = Response { status: 200, headers: Vec::new(), body };
    assert(response@.headers =~= Seq::empty());
    response
}

/// Sends the client on to `location`.
pub fn redirect(location: &str) -> (response: Response)
    ensures
        response@ == redirect_view(location@),
{
    let mut headers: Vec<(String, String)> = Vec::new();
    headers.push((String::from_str("Location"), String::from_str(location)));
    let response = Response { status: 302, headers, body: String::new() };
    assert(response@.headers =~= seq![("Location"@, location@)]);
    response
}

} // verus!
