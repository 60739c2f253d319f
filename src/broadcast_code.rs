//! Broadcast_Code (data type 0x2d): an opaque code of at least four bytes
//! that takes the rest of the record.

use crate::error::DecodeError;
use crate::record::{
    check_variable_size, copy_range, lemma_record_at_zero, payload, push_all, record_at,
    variable_size_error,
};
use vstd::prelude::*;

verus! {

/// Type tag of [`BroadcastCode`].
pub const BROADCAST_CODE_DATA_TYPE: u8 = 0x2d;

/// The fewest bytes a broadcast code record has: length byte, tag, four bytes of code.
pub const BROADCAST_CODE_MIN_SIZE: usize = 6;

/// Broadcast_Code.
#[derive(Debug)]
pub struct BroadcastCode {
    /// Declared length: the number of bytes after the length byte.
    pub length: u8,
    /// The code.
    pub broadcast_code: Vec<u8>,
}

impl BroadcastCode {
    /// The code has at least four bytes and the declared length is the one of
    /// the layout.
    pub open spec fn wf(&self) -> bool {
        &&& self.broadcast_code@.len() >= 4
        &&& self.length == 1 + self.broadcast_code@.len()
    }

    /// The record that encodes `self`: the length byte counts the tag and the code.
    pub open spec fn wire(&self) -> Seq<u8> {
        seq![(1 + self.broadcast_code@.len()) as u8, BROADCAST_CODE_DATA_TYPE] + self.broadcast_code@
    }

    /// `r` is what decoding the record `s` gives.
    pub open spec fn decodes(s: Seq<u8>, r: Result<BroadcastCode, DecodeError>) -> bool {
        match variable_size_error(s, BROADCAST_CODE_MIN_SIZE as nat) {
            Some(e) => r == Err::<BroadcastCode, DecodeError>(e),
            None => r matches Ok(v) && v.length == s[0] && v.broadcast_code@ == payload(s),
        }
    }

    /// Creates a broadcast code record holding `broadcast_code`.
    pub fn new(broadcast_code: &Vec<u8>) -> (r: Self)
        requires
            broadcast_code@.len() <= 254,
        ensures
            r.length == 1 + broadcast_code@.len(),
            r.broadcast_code@ == broadcast_code@,
    {
        let mut copy: Vec<u8> = Vec::new();
        push_all(&mut copy, broadcast_code);
        proof {
            assert(copy@ =~= broadcast_code@);
        }
        Self { length: 1 + broadcast_code.len() as u8, broadcast_code: copy }
    }

    /// Decodes the record that starts at `offset` in `data`.
    pub fn from_with_offset(data: &Vec<u8>, offset: usize) -> (r: Result<Self, DecodeError>)
        ensures
            Self::decodes(record_at(data@, offset as int), r),
    {
        if let Some(e) = check_variable_size(data, offset, BROADCAST_CODE_MIN_SIZE) {
            return Err(e);
        }
        let ghost s = record_at(data@, offset as int);
        let len = data.len();
        let length = data[offset];
        let broadcast_code = copy_range(data, offset + 2, offset + 1 + length as usize);
        proof {
            assert(broadcast_code@ =~= payload(s));
        }
        Ok(Self { length, broadcast_code })
    }

    /// Decodes the record at the start of `data`.
    pub fn try_from(data: &Vec<u8>) -> (r: Result<Self, DecodeError>)
        ensures
            Self::decodes(data@, r),
    {
        proof {
            lemma_record_at_zero(data@);
        }
        Self::from_with_offset(data, 0)
    }

    /// Encodes the record: length byte (1 + the code's length), tag, code.
    /// The code must fit the one-byte length.
    pub fn encode(&self) -> (r: Vec<u8>)
        requires
            self.broadcast_code@.len() <= 254,
        ensures
            r@ == self.wire(),
            r@.len() == r@[0] + 1,
            r@[1] == BROADCAST_CODE_DATA_TYPE,
    {
        let mut data: Vec<u8> = Vec::new();
        data.push(1 + self.broadcast_code.len() as u8);
        data.push(BROADCAST_CODE_DATA_TYPE);
        push_all(&mut data, &self.broadcast_code);
        proof {
            assert(data@ =~= self.wire());
        }
        data
    }

    /// The type tag, `0x2d`.
    pub fn data_type() -> (r: u8)
        ensures
            r == BROADCAST_CODE_DATA_TYPE,
    {
        BROADCAST_CODE_DATA_TYPE
    }
}

/// Whether `data_type` is the tag of [`BroadcastCode`].
pub fn is_broadcast_code(data_type: u8) -> (r: bool)
    ensures
        r == (data_type == BROADCAST_CODE_DATA_TYPE),
{
    data_type == BROADCAST_CODE_DATA_TYPE
}

/// Decoding the encoding of a well-formed broadcast code gives it back.
pub proof fn lemma_broadcast_code_decode_encode(x: BroadcastCode, r: Result<BroadcastCode, DecodeError>)
    requires
        x.wf(),
        BroadcastCode::decodes(x.wire(), r),
    ensures
        r matches Ok(v) && v.length == x.length && v.broadcast_code@ == x.broadcast_code@,
{
    assert(payload(x.wire()) =~= x.broadcast_code@);
}

/// Encoding the decoding of a broadcast code record gives the record back,
/// and the decoded value is well formed.
pub proof fn lemma_broadcast_code_encode_decode(s: Seq<u8>, r: Result<BroadcastCode, DecodeError>)
    requires
        s.len() == s[0] + 1,
        s[1] == BROADCAST_CODE_DATA_TYPE,
        BroadcastCode::decodes(s, r),
        r is Ok,
    ensures
        r matches Ok(v) && v.wire() == s && v.wf(),
{
    if let Ok(v) = r {
        assert(v.wire() =~= s);
    }
}

/// A record of 6 bytes, the fewest the layout allows, decodes; one byte
/// fewer is too short, and the error says how many bytes there were.
pub proof fn lemma_broadcast_code_size_boundary(s: Seq<u8>, r: Result<BroadcastCode, DecodeError>)
    requires
        BroadcastCode::decodes(s, r),
    ensures
        s.len() == 5 ==> r == Err::<BroadcastCode, DecodeError>(DecodeError::BufferTooShort(5)),
        (s.len() == 6 && s[0] == 5) ==> r is Ok,
{
}

} // verus!
