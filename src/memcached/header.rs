//! The fixed 24-byte header shared by requests and responses.
use vstd::prelude::*;

use crate::memcached::cursor::{be_u16_at, be_u32_at, u16_be, u32_be, u64_be, ByteCursor};
use crate::memcached::MemcachedError;

verus! {

pub const HEADER_SIZE: u8 = 24;

pub const REQUEST_PACKET: u8 = 128;

pub const RESPONSE_PACKET: u8 = 129;

pub const DATA_TYPE: u8 = 0;

pub const RESERVED: u16 = 0;

pub const OPAQUE: u32 = 0;

// The probe never uses compare-and-swap.
pub const CAS: u64 = 0;

/// Bytes of a request header.
pub open spec fn request_header_bytes(opcode: u8, key_length: u16, extra_length: u8, total_body_length: u32) -> Seq<u8> {
    seq![REQUEST_PACKET, opcode] + u16_be(key_length) + seq![extra_length, DATA_TYPE] + u16_be(RESERVED)
        + u32_be(total_body_length) + u32_be(OPAQUE) + u64_be(CAS)
}

/// Appends the big-endian bytes of `x`.
fn push_u16(out: &mut Vec<u8>, x: u16)
    ensures
        final(out)@ == old(out)@ + u16_be(x),
{
    out.push((x / 256) as u8);
    out.push((x % 256) as u8);
    assert(final(out)@ =~= old(out)@ + u16_be(x));
}

/// Appends the big-endian bytes of `x`.
fn push_u32(out: &mut Vec<u8>, x: u32)
    ensures
        final(out)@ == old(out)@ + u32_be(x),
{
    out.push((x / 16777216) as u8);
    out.push(((x / 65536) % 256) as u8);
    out.push(((x / 256) % 256) as u8);
    out.push((x % 256) as u8);
    assert(final(out)@ =~= old(out)@ + u32_be(x));
}

/// Appends the big-endian bytes of `x`.
pub fn push_u64(out: &mut Vec<u8>, x: u64)
    ensures
        final(out)@ == old(out)@ + u64_be(x),
{
    push_u32(out, (x / 4294967296) as u32);
    push_u32(out, (x % 4294967296) as u32);
    assert(final(out)@ =~= old(out)@ + u64_be(x));
}

/// Header of a request, as sent.
pub struct RequestHeader {
    opcode: u8,
    key_length: u16,
    extra_length: u8,
    total_body_length: u32,
}

impl RequestHeader {
    /// The bytes this header encodes to.
    pub closed spec fn spec_bytes(&self) -> Seq<u8> {
        request_header_bytes(self.opcode, self.key_length, self.extra_length, self.total_body_length)
    }

    /// A request header whose body holds `extra_length + key_length + value_length` bytes.
    pub fn new(opcode: u8, key_length: u16, extra_length: u8, value_length: u32) -> (r: RequestHeader)
        requires
            key_length + extra_length + value_length <= u32::MAX,
        ensures
            r.spec_bytes() == request_header_bytes(
                opcode,
                key_length,
                extra_length,
                (key_length + extra_length + value_length) as u32,
            ),
    {
        let total_body_length: u32 = key_length as u32 + extra_length as u32 + value_length;
        RequestHeader { opcode, key_length, extra_length, total_body_length }
    }

    pub fn as_bytes(&mut self) -> (r: Vec<u8>)
        ensures
            r@ == old(self).spec_bytes(),
            r@.len() == HEADER_SIZE,
            *final(self) == *old(self),
    {
        let mut request_bytes: Vec<u8> = Vec::with_capacity(HEADER_SIZE as usize);
        request_bytes.push(REQUEST_PACKET);
        request_bytes.push(self.opcode);
        push_u16(&mut request_bytes, self.key_length);
        request_bytes.push(self.extra_length);
        request_bytes.push(DATA_TYPE);
        push_u16(&mut request_bytes, RESERVED);
        push_u32(&mut request_bytes, self.total_body_length);
        push_u32(&mut request_bytes, OPAQUE);
        push_u64(&mut request_bytes, CAS);
        assert(request_bytes@ =~= self.spec_bytes());
        request_bytes
    }
}

/// Header of a response, as read. The byte fields hold the bytes as received.
#[derive(Debug, PartialEq)]
pub struct ResponseHeader {
    pub magic: Vec<u8>,
    pub opcode: Vec<u8>,
    pub key_length: u16,
    pub extra_length: u8,
    pub data_type: Vec<u8>,
    pub status: Vec<u8>,
    pub total_body_length: u32,
    pub opaque: Vec<u8>,
    pub cas: Vec<u8>,
}

/// Key length field of the header that starts at `p`.
pub open spec fn header_key_length(s: Seq<u8>, p: int) -> nat {
    be_u16_at(s, p + 2)
}

/// Extra length field of the header that starts at `p`.
pub open spec fn header_extra_length(s: Seq<u8>, p: int) -> nat {
    s[p + 4] as nat
}

/// Total body length field of the header that starts at `p`.
pub open spec fn header_total_body_length(s: Seq<u8>, p: int) -> nat {
    be_u32_at(s, p + 8)
}

/// Length of the whole frame whose header starts at `p`.
pub open spec fn frame_length(s: Seq<u8>, p: int) -> nat {
    (HEADER_SIZE + header_total_body_length(s, p)) as nat
}

/// Result of checking the header that starts at `p`: the frame length, or why
/// there is no header to read.
pub open spec fn header_check(s: Seq<u8>, p: int) -> Result<nat, MemcachedError> {
    if s.len() - p < HEADER_SIZE {
        Err(MemcachedError::Incomplete)
    } else if s[p] != RESPONSE_PACKET {
        Err(MemcachedError::Other)
    } else {
        Ok(frame_length(s, p))
    }
}

impl ResponseHeader {
    /// The header decoded from the 24 bytes at `p`.
    pub open spec fn decoded_from(&self, s: Seq<u8>, p: int) -> bool {
        &&& self.magic@ == s.subrange(p, p + 1)
        &&& self.opcode@ == s.subrange(p + 1, p + 2)
        &&& self.key_length == header_key_length(s, p)
        &&& self.extra_length == header_extra_length(s, p)
        &&& self.data_type@ == s.subrange(p + 5, p + 6)
        &&& self.status@ == s.subrange(p + 6, p + 8)
        &&& self.total_body_length == header_total_body_length(s, p)
        &&& self.opaque@ == s.subrange(p + 12, p + 16)
        &&& self.cas@ == s.subrange(p + 16, p + 24)
    }

    /// The status code, read big-endian from the two status bytes.
    pub fn status_code(&self) -> (r: u16)
        requires
            self.status@.len() == 2,
        ensures
            r == be_u16_at(self.status@, 0),
    {
        self.status[0] as u16 * 256 + self.status[1] as u16
    }

    /// Decodes the header at the read position and moves past it. The magic
    /// byte is not checked here: see `check`.
    pub fn parse(src: &mut ByteCursor) -> (r: ResponseHeader)
        requires
            old(src).wf(),
            old(src).rest() >= HEADER_SIZE,
        ensures
            final(src).wf(),
            final(src).bytes() == old(src).bytes(),
            final(src).pos() == old(src).pos() + HEADER_SIZE,
            r.decoded_from(old(src).bytes(), old(src).pos() as int),
    {
        let magic = src.copy_to_bytes(1);
        let opcode = src.copy_to_bytes(1);
        let key_length = src.get_u16();
        let extra_length = src.get_u8();
        let data_type = src.copy_to_bytes(1);
        let status = src.copy_to_bytes(2);
        let total_body_length = src.get_u32();
        let opaque = src.copy_to_bytes(4);
        let cas = src.copy_to_bytes(8);
        ResponseHeader {
            magic,
            opcode,
            key_length,
            extra_length,
            data_type,
            status,
            total_body_length,
            opaque,
            cas,
        }
    }

    /// Checks that a response header is buffered at the read position and
    /// gives the length of its whole frame. The read position is left as it was.
    pub fn check(src: &mut ByteCursor) -> (r: Result<u64, MemcachedError>)
        requires
            old(src).wf(),
        ensures
            final(src).wf(),
            final(src)@ == old(src)@,
            r matches Ok(n) ==> header_check(old(src).bytes(), old(src).pos() as int) == Ok::<nat, MemcachedError>(n as nat),
            r matches Err(e) ==> header_check(old(src).bytes(), old(src).pos() as int) == Err::<nat, MemcachedError>(e),
    {
        if src.remaining() < HEADER_SIZE as usize {
            return Err(MemcachedError::Incomplete);
        }
        if src.peek(0) != RESPONSE_PACKET {
            return Err(MemcachedError::Other);
        }
        let b0 = src.peek(8) as u64;
        let b1 = src.peek(9) as u64;
        let b2 = src.peek(10) as u64;
        let b3 = src.peek(11) as u64;
        let total_body_size: u64 = b0 * 16777216 + b1 * 65536 + b2 * 256 + b3;
        Ok(HEADER_SIZE as u64 + total_body_size)
    }
}

} // verus!
