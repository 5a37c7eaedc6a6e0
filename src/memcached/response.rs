//! A response as the probe reads it: its header.
use vstd::prelude::*;

use crate::memcached::cursor::ByteCursor;
use crate::memcached::header::{header_check, ResponseHeader, HEADER_SIZE};
use crate::memcached::MemcachedError;

verus! {

/// Result of checking the buffer at `p` for a whole response: its length, or
/// why none can be read yet.
pub open spec fn response_check(s: Seq<u8>, p: int) -> Result<nat, MemcachedError> {
    match header_check(s, p) {
        Err(e) => Err(e),
        Ok(n) => if s.len() - p < n {
            Err(MemcachedError::Incomplete)
        } else {
            Ok(n)
        },
    }
}

pub struct Response {
    pub header: ResponseHeader,
}

impl Response {
    /// Checks that a whole response is buffered at the read position and gives
    /// its length. The read position is left as it was.
    pub fn check(src: &mut ByteCursor) -> (r: Result<usize, MemcachedError>)
        requires
            old(src).wf(),
        ensures
            final(src).wf(),
            final(src)@ == old(src)@,
            r matches Ok(n) ==> response_check(old(src).bytes(), old(src).pos() as int) == Ok::<nat, MemcachedError>(n as nat),
            r matches Err(e) ==> response_check(old(src).bytes(), old(src).pos() as int) == Err::<nat, MemcachedError>(e),
    {
        let total_len = match ResponseHeader::check(src) {
            Ok(n) => n,
            Err(e) => {
                return Err(e);
            },
        };
        if (src.remaining() as u64) < total_len {
            return Err(MemcachedError::Incomplete);
        }
        Ok(total_len as usize)
    }

    /// Decodes the response header at the read position and moves past it.
    pub fn parse(src: &mut ByteCursor) -> (r: Response)
        requires
            old(src).wf(),
            old(src).rest() >= HEADER_SIZE,
        ensures
            final(src).wf(),
            final(src).bytes() == old(src).bytes(),
            final(src).pos() == old(src).pos() + HEADER_SIZE,
            r.header.decoded_from(old(src).bytes(), old(src).pos() as int),
    {
        let header = ResponseHeader::parse(src);
        Response { header }
    }
}

} // verus!
