//! A Set request built from a text key and an owned value.
use vstd::prelude::*;
use vstd::string::StringSliceAdditionalSpecFns;

use crate::memcached::command::{set_request_bytes, SET_OPCODE};
use crate::memcached::cursor::extend_bytes;
use crate::memcached::header::{push_u64, RequestHeader};

verus! {

pub const EXTRA_LEN: u8 = 8;

pub struct SetCommand {
    header: RequestHeader,
    key: Vec<u8>,
    value: Vec<u8>,
    extra_field: Vec<u8>,
}

impl SetCommand {
    /// The bytes this request encodes to.
    pub closed spec fn spec_bytes(&self) -> Seq<u8> {
        self.header.spec_bytes() + self.extra_field@ + self.key@ + self.value@
    }

    /// The request storing `value` under the bytes of `key`, expiring after
    /// `expire` seconds.
    pub fn new(key: &str, value: Vec<u8>, expire: u64) -> (r: SetCommand)
        requires
            key.spec_bytes().len() <= u16::MAX,
            key.spec_bytes().len() + EXTRA_LEN + value@.len() <= u32::MAX,
        ensures
            r.spec_bytes() == set_request_bytes(key.spec_bytes(), value@, expire),
    {
        let mut extra_field: Vec<u8> = Vec::new();
        push_u64(&mut extra_field, expire);
        let key_vec = vstd::slice::slice_to_vec(key.as_bytes());
        let header = RequestHeader::new(SET_OPCODE, key_vec.len() as u16, EXTRA_LEN, value.len() as u32);
        SetCommand { header, key: key_vec, value, extra_field }
    }

    pub fn as_bytes(&mut self) -> (r: Vec<u8>)
        ensures
            r@ == old(self).spec_bytes(),
            *final(self) == *old(self),
    {
        let mut request_bytes: Vec<u8> = Vec::new();
        let header_bytes = self.header.as_bytes();
        extend_bytes(&mut request_bytes, header_bytes.as_slice());
        extend_bytes(&mut request_bytes, self.extra_field.as_slice());
        extend_bytes(&mut request_bytes, self.key.as_slice());
        extend_bytes(&mut request_bytes, self.value.as_slice());
        assert(request_bytes@ =~= self.spec_bytes());
        request_bytes
    }
}

} // verus!
