//! Whole response frames: header, extra, key and value.
use vstd::prelude::*;

use crate::memcached::cursor::ByteCursor;
use crate::memcached::header::{
    frame_length, header_extra_length, header_key_length, header_total_body_length,
    RequestHeader, ResponseHeader, HEADER_SIZE, RESPONSE_PACKET,
};
use crate::memcached::MemcachedError;

verus! {

#[derive(Debug, PartialEq, Eq, Clone, Copy, Structural)]
pub enum Error {
    Incomplete,
    Other,
}

/// A frame is buffered whole at `p`, and its key and extra fit in its body.
pub open spec fn frame_is_complete(s: Seq<u8>, p: int) -> bool {
    &&& 0 <= p
    &&& s.len() - p >= HEADER_SIZE
    &&& s.len() - p >= frame_length(s, p)
    &&& header_key_length(s, p) + header_extra_length(s, p) <= header_total_body_length(s, p)
}

/// A whole request frame: header, extra, key and value.
pub struct FrameRequest {
    pub header: RequestHeader,
    pub extra: Vec<u8>,
    pub key: Vec<u8>,
    pub value: Vec<u8>,
}

/// A whole response frame: header, extra, key and value.
pub struct FrameResponse {
    pub header: ResponseHeader,
    pub extra: Vec<u8>,
    pub key: Vec<u8>,
    pub value: Vec<u8>,
}

impl FrameResponse {
    /// Checks that a whole frame is buffered at the read position and, if so,
    /// moves past it. Otherwise the read position is left as it was.
    pub fn check(src: &mut ByteCursor) -> (r: Result<(), Error>)
        requires
            old(src).wf(),
        ensures
            final(src).wf(),
            final(src).bytes() == old(src).bytes(),
            ({
                let s = old(src).bytes();
                let p = old(src).pos() as int;
                &&& (r == Err::<(), Error>(Error::Other)) <== (s.len() - p >= HEADER_SIZE && s[p] != RESPONSE_PACKET)
                &&& (r == Err::<(), Error>(Error::Other)) ==> (s.len() - p >= HEADER_SIZE && s[p] != RESPONSE_PACKET)
                &&& (r == Err::<(), Error>(Error::Incomplete)) <==> (s.len() - p < HEADER_SIZE || (s[p] == RESPONSE_PACKET
                    && s.len() - p < frame_length(s, p)))
                &&& r is Ok ==> final(src).pos() == p + frame_length(s, p)
                &&& r is Err ==> final(src).pos() == p
            }),
    {
        let total_len = match ResponseHeader::check(src) {
            Ok(n) => n,
            Err(MemcachedError::Incomplete) => {
                return Err(Error::Incomplete);
            },
            Err(MemcachedError::Other) => {
                return Err(Error::Other);
            },
        };
        if (src.remaining() as u64) < total_len {
            return Err(Error::Incomplete);
        }
        src.advance(total_len as usize);
        Ok(())
    }

    /// Decodes the frame at the read position, which must be complete, and
    /// moves past it.
    pub fn parse(src: &mut ByteCursor) -> (r: FrameResponse)
        requires
            old(src).wf(),
            frame_is_complete(old(src).bytes(), old(src).pos() as int),
        ensures
            final(src).wf(),
            final(src).bytes() == old(src).bytes(),
            ({
                let s = old(src).bytes();
                let p = old(src).pos() as int;
                let k = header_key_length(s, p) as int;
                let x = header_extra_length(s, p) as int;
                let end = p + frame_length(s, p);
                &&& final(src).pos() == end
                &&& r.header.decoded_from(s, p)
                &&& r.extra@ == s.subrange(p + HEADER_SIZE, p + HEADER_SIZE + x)
                &&& r.key@ == s.subrange(p + HEADER_SIZE + x, p + HEADER_SIZE + x + k)
                &&& r.value@ == s.subrange(p + HEADER_SIZE + x + k, end)
            }),
    {
        let header = ResponseHeader::parse(src);
        let extra = src.copy_to_bytes(header.extra_length as usize);
        let key = src.copy_to_bytes(header.key_length as usize);
        let value_length = header.total_body_length as usize - header.key_length as usize
            - header.extra_length as usize;
        let value = src.copy_to_bytes(value_length);
        FrameResponse { header, extra, key, value }
    }
}

} // verus!
