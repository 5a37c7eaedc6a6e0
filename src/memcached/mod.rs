//! Binary cache protocol: request encoding, response framing and status codes.
use vstd::prelude::*;

pub mod command;
pub mod cursor;
pub mod frame;
pub mod header;
pub mod response;
pub mod set;


use crate::memcached::cursor::ByteCursor;
use crate::memcached::response::{response_check, Response};
use crate::text::{decimal, u64_to_decimal};

verus! {

/// Errors of response framing.
#[derive(Debug, PartialEq, Eq, Clone, Copy, Structural)]
pub enum MemcachedError {
    /// Not enough bytes buffered yet.
    Incomplete,
    /// The buffer does not start with a response.
    Other,
}

/// Name of a response status code; a code without a name reads as its number.
pub open spec fn status_label_of(code: u16) -> Seq<char> {
    if code == 0 { "NoError"@ }
    else if code == 1 { "KeyNotFound"@ }
    else if code == 2 { "KeyExists"@ }
    else if code == 3 { "ValueTooLarge"@ }
    else if code == 4 { "InvalidArguments"@ }
    else if code == 5 { "ItemNotStored"@ }
    else if code == 6 { "IncrDecrOnNonNumericValue"@ }
    else if code == 129 { "UnknownCommand"@ }
    else if code == 130 { "OutOfMemory"@ }
    else { decimal(code as nat) }
}

/// The status codes that have a name.
pub open spec fn is_named_status(code: u16) -> bool {
    code <= 6 || code == 129 || code == 130
}

/// Whether a status code has a name.
pub fn is_named(code: u16) -> (r: bool)
    ensures
        r == is_named_status(code),
{
    code <= 6 || code == 129 || code == 130
}

/// The label of a status code in request metrics.
pub fn status_label(code: u16) -> (r: String)
    ensures
        r@ == status_label_of(code),
{
    let name: &str = if code == 0 {
        "NoError"
    } else if code == 1 {
        "KeyNotFound"
    } else if code == 2 {
        "KeyExists"
    } else if code == 3 {
        "ValueTooLarge"
    } else if code == 4 {
        "InvalidArguments"
    } else if code == 5 {
        "ItemNotStored"
    } else if code == 6 {
        "IncrDecrOnNonNumericValue"
    } else if code == 129 {
        "UnknownCommand"
    } else if code == 130 {
        "OutOfMemory"
    } else {
        return u64_to_decimal(code as u64);
    };
    name.to_string()
}

/// The named status codes, in increasing order.
pub fn named_status_codes() -> (r: Vec<u16>)
    ensures
        forall|c: u16| is_named_status(c) <==> r@.contains(c),
        r@.len() == 9,
{
    let r = vec![0u16, 1, 2, 3, 4, 5, 6, 129, 130];
    assert forall|c: u16| is_named_status(c) <==> r@.contains(c) by {
        if is_named_status(c) {
            if c == 0 { assert(r@[0] == c); }
            else if c == 1 { assert(r@[1] == c); }
            else if c == 2 { assert(r@[2] == c); }
            else if c == 3 { assert(r@[3] == c); }
            else if c == 4 { assert(r@[4] == c); }
            else if c == 5 { assert(r@[5] == c); }
            else if c == 6 { assert(r@[6] == c); }
            else if c == 129 { assert(r@[7] == c); }
            else { assert(r@[8] == c); }
        }
    }
    r
}

/// The response at the front of `buffer`, with how many bytes it spans; `None`
/// while it has not arrived whole.
pub fn parse_response(buffer: &[u8]) -> (r: Result<Option<(Response, usize)>, MemcachedError>)
    ensures
        r matches Err(e) ==> e == MemcachedError::Other && response_check(buffer@, 0) == Err::<nat, MemcachedError>(e),
        r matches Ok(None) ==> response_check(buffer@, 0) == Err::<nat, MemcachedError>(MemcachedError::Incomplete),
        r matches Ok(Some((resp, n))) ==> response_check(buffer@, 0) == Ok::<nat, MemcachedError>(n as nat)
            && resp.header.decoded_from(buffer@, 0),
{
    let mut cursor = ByteCursor::new(vstd::slice::slice_to_vec(buffer));
    match Response::check(&mut cursor) {
        Ok(len) => {
            let response = Response::parse(&mut cursor);
            Ok(Some((response, len)))
        },
        Err(MemcachedError::Incomplete) => Ok(None),
        Err(issue) => Err(issue),
    }
}

/// How a connection fails when the node closes it before a whole response.
#[derive(Debug, PartialEq, Eq, Clone, Copy, Structural)]
pub enum StreamEnd {
    /// Nothing was pending.
    EmptyOrIncompleteResponse,
    /// Part of a response was pending.
    ConnectionReset,
}

/// The failure when the stream ends with `buffered` bytes still unframed.
pub fn end_of_stream(buffered: usize) -> (r: StreamEnd)
    ensures
        r == (if buffered == 0 { StreamEnd::EmptyOrIncompleteResponse } else { StreamEnd::ConnectionReset }),
{
    if buffered == 0 {
        StreamEnd::EmptyOrIncompleteResponse
    } else {
        StreamEnd::ConnectionReset
    }
}

} // verus!
