//! The response values that the command processor caches and replays.
//!
//! An HTTP response is modelled as a status code, an ordered list of
//! header name/byte-value pairs (duplicates allowed), and a byte body.

use vstd::prelude::*;

verus! {

/// One response header: a name and a byte value.
#[derive(Debug)]
pub struct HeaderPair {
    pub name: String,
    pub value: Vec<u8>,
}

/// The mathematical value of a [`HeaderPair`].
#[verifier::ext_equal]
pub struct HeaderPairView {
    pub name: Seq<char>,
    pub value: Seq<u8>,
}

impl View for HeaderPair {
    type V = HeaderPairView;

    open spec fn view(&self) -> HeaderPairView {
        HeaderPairView { name: self.name@, value: self.value@ }
    }
}

/// A complete response: the unit that the idempotency store persists and
/// that duplicate requests get back verbatim.
#[derive(Debug)]
pub struct StoredResponse {
    pub status: u16,
    pub headers: Vec<HeaderPair>,
    pub body: Vec<u8>,
}

/// The mathematical value of a [`StoredResponse`].
#[verifier::ext_equal]
pub struct ResponseView {
    pub status: u16,
    pub headers: Seq<HeaderPairView>,
    pub body: Seq<u8>,
}

impl View for StoredResponse {
    type V = ResponseView;

    open spec fn view(&self) -> ResponseView {
        ResponseView {
            status: self.status,
            headers: Seq::new(self.headers@.len(), |i: int| self.headers@[i]@),
            body: self.body@,
        }
    }
}

impl HeaderPair {
    /// An exact copy; the model has no use for `derive(Clone)`, whose
    /// contract would say nothing.
    pub fn duplicate(&self) -> (r: HeaderPair)
        ensures
            r@ == self@,
    {
        HeaderPair { name: self.name.clone(), value: self.value.clone() }
    }
}

impl StoredResponse {
    /// An exact copy of the whole response.
    pub fn duplicate(&self) -> (r: StoredResponse)
        ensures
            r@ == self@,
    {
        let mut headers: Vec<HeaderPair> = Vec::new();
        let mut i: usize = 0;
        while i < self.headers.len()
            invariant
                i <= self.headers.len(),
                headers@.len() == i,
                forall|j: int| 0 <= j < i ==> headers@[j]@ == self.headers@[j]@,
            decreases self.headers.len() - i,
        {
            headers.push(self.headers[i].duplicate());
            i = i + 1;
        }
        let r = StoredResponse { status: self.status, headers, body: self.body.clone() };
        proof {
            assert(r@.headers =~= self@.headers);
            assert(r@ =~= self@);
        }
        r
    }
}

/// The view of the response that [`redirect`] builds: the location header
/// carries the target as its UTF-8 bytes.
pub open spec fn spec_redirect(location: Seq<char>) -> ResponseView {
    ResponseView {
        status: 303,
        headers: seq![
            HeaderPairView { name: "location"@, value: vstd::utf8::encode_utf8(location) },
        ],
        body: Seq::empty(),
    }
}

/// A "see other" redirect, as the login and publish handlers return it:
/// status 303 with a single `location` header and an empty body.
pub fn redirect(location: &str) -> (r: StoredResponse)
    ensures
        r@ == spec_redirect(location@),
{
    let bytes = vstd::slice::slice_to_vec(location.as_bytes());
    let pair = HeaderPair { name: location_header_name(), value: bytes };
    let r = StoredResponse { status: 303, headers: vec![pair], body: Vec::new() };
    proof {
        assert(r@.headers =~= spec_redirect(location@).headers);
        assert(r@ =~= spec_redirect(location@));
    }
    r
}

/// The literal header name `location`.
fn location_header_name() -> (r: String)
    ensures
        r@ == "location"@,
{
    let r = String::from_str("location");
    r
}

/// The view of a bare response: a status code with no headers and no
/// body.
pub open spec fn spec_status_response(status: u16) -> ResponseView {
    ResponseView { status, headers: Seq::empty(), body: Seq::empty() }
}

/// A bare response carrying only a status code, as handlers answer when
/// they have nothing else to say.
pub fn status_response(status: u16) -> (r: StoredResponse)
    ensures
        r@ == spec_status_response(status),
{
    let r = StoredResponse { status, headers: Vec::new(), body: Vec::new() };
    proof {
        assert(r@.headers =~= Seq::<HeaderPairView>::empty());
        assert(r@ =~= spec_status_response(status));
    }
    r
}

/// An error that a request handler maps to a plain response: the status it
/// answers with and the message shown to the caller.
#[derive(Debug)]
pub struct HandlerError {
    pub status: u16,
    pub message: String,
}

/// Wrap a message as a client error, answered with status 400.
pub fn error_400(message: String) -> (r: HandlerError)
    ensures
        r.status == 400,
        r.message@ == message@,
{
    HandlerError { status: 400, message }
}

/// Wrap a message as a server error, answered with status 500.
pub fn error_500(message: String) -> (r: HandlerError)
    ensures
        r.status == 500,
        r.message@ == message@,
{
    HandlerError { status: 500, message }
}

} // verus!
