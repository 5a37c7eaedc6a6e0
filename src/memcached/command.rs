//! The two requests a probe sends: Get and Set.
use vstd::prelude::*;

use crate::memcached::cursor::{extend_bytes, u64_be};
use crate::memcached::header::{
    header_extra_length, header_key_length, header_total_body_length, push_u64, request_header_bytes,
    RequestHeader,
};

verus! {

pub const SET_EXTRA_LEN: u8 = 8;

pub const GET_OPCODE: u8 = 0;

pub const SET_OPCODE: u8 = 1;

/// Bytes of a Get request for `key`.
pub open spec fn get_request_bytes(key: Seq<u8>) -> Seq<u8> {
    request_header_bytes(GET_OPCODE, key.len() as u16, 0, key.len() as u32) + key
}

/// Bytes of a Set request: header, the time to live as eight big-endian
/// bytes, key, value.
pub open spec fn set_request_bytes(key: Seq<u8>, value: Seq<u8>, ttl: u64) -> Seq<u8> {
    request_header_bytes(SET_OPCODE, key.len() as u16, 8, (key.len() + 8 + value.len()) as u32)
        + u64_be(ttl) + key + value
}

/// A request that can be written to a node.
pub trait Command: Sized {
    /// The bytes this request encodes to.
    spec fn spec_bytes(&self) -> Seq<u8>;

    fn as_bytes(&mut self) -> (r: Vec<u8>)
        ensures
            r@ == old(self).spec_bytes(),
            *final(self) == *old(self),
    ;
}

pub struct Get {
    header: RequestHeader,
    key: Vec<u8>,
}

pub struct SetCommand {
    header: RequestHeader,
    key: Vec<u8>,
    value: Vec<u8>,
    extra_field: Vec<u8>,
}

impl SetCommand {
    /// The request storing `value` under `key` for `ttl` seconds.
    pub fn new(key: &[u8], value: &[u8], ttl: u64) -> (r: SetCommand)
        requires
            key@.len() <= u16::MAX,
            key@.len() + SET_EXTRA_LEN + value@.len() <= u32::MAX,
        ensures
            r.spec_bytes() == set_request_bytes(key@, value@, ttl),
    {
        let mut extra_field: Vec<u8> = Vec::new();
        push_u64(&mut extra_field, ttl);
        let header = RequestHeader::new(SET_OPCODE, key.len() as u16, SET_EXTRA_LEN, value.len() as u32);
        SetCommand { header, key: vstd::slice::slice_to_vec(key), value: vstd::slice::slice_to_vec(value), extra_field }
    }
}

impl Get {
    /// The request reading `key`.
    pub fn new(key: &[u8]) -> (r: Get)
        requires
            key@.len() <= u16::MAX,
        ensures
            r.spec_bytes() == get_request_bytes(key@),
    {
        let header = RequestHeader::new(GET_OPCODE, key.len() as u16, 0, 0);
        Get { header, key: vstd::slice::slice_to_vec(key) }
    }
}

impl Command for SetCommand {
    closed spec fn spec_bytes(&self) -> Seq<u8> {
        self.header.spec_bytes() + self.extra_field@ + self.key@ + self.value@
    }

    fn as_bytes(&mut self) -> (r: Vec<u8>) {
        let mut req: Vec<u8> = Vec::new();
        let header_bytes = self.header.as_bytes();
        extend_bytes(&mut req, header_bytes.as_slice());
        extend_bytes(&mut req, self.extra_field.as_slice());
        extend_bytes(&mut req, self.key.as_slice());
        extend_bytes(&mut req, self.value.as_slice());
        assert(req@ =~= self.spec_bytes());
        req
    }
}

impl Command for Get {
    closed spec fn spec_bytes(&self) -> Seq<u8> {
        self.header.spec_bytes() + self.key@
    }

    fn as_bytes(&mut self) -> (r: Vec<u8>) {
        let mut req: Vec<u8> = Vec::new();
        let header_bytes = self.header.as_bytes();
        extend_bytes(&mut req, header_bytes.as_slice());
        extend_bytes(&mut req, self.key.as_slice());
        assert(req@ =~= self.spec_bytes());
        req
    }
}

} // verus!

verus! {

/// Decoding the header of an encoded Set request gives back the key length,
/// the eight bytes of extra and the total body length it was built with.
pub proof fn set_header_round_trip(key: Seq<u8>, value: Seq<u8>, ttl: u64)
    requires
        key.len() <= u16::MAX,
        key.len() + SET_EXTRA_LEN + value.len() <= u32::MAX,
    ensures
        header_key_length(set_request_bytes(key, value, ttl), 0) == key.len(),
        header_extra_length(set_request_bytes(key, value, ttl), 0) == SET_EXTRA_LEN,
        header_total_body_length(set_request_bytes(key, value, ttl), 0) == key.len() + SET_EXTRA_LEN
            + value.len(),
{
    let s = set_request_bytes(key, value, ttl);
    let k = key.len() as u16;
    let t = (key.len() + 8 + value.len()) as u32;
    assert(s[2] == (k / 256) as u8 && s[3] == (k % 256) as u8);
    assert(s[4] == 8u8);
    assert(s[8] == (t / 16777216) as u8 && s[9] == ((t / 65536) % 256) as u8);
    assert(s[10] == ((t / 256) % 256) as u8 && s[11] == (t % 256) as u8);
    assert((k / 256) * 256 + k % 256 == k) by (nonlinear_arith);
    assert((t / 16777216) * 16777216 + ((t / 65536) % 256) * 65536 + ((t / 256) % 256) * 256 + t % 256 == t)
        by (nonlinear_arith);
}

} // verus!
