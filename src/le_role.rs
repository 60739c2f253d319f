//! LE Role (data type 0x1c): which link-layer roles the device supports and prefers.

use crate::error::DecodeError;
use crate::record::{
    decode_fixed, fixed_size_error, fixed_wire, lemma_fixed_decode_wire, lemma_fixed_wire_decode,
    lemma_record_at_zero, record_at,
};
use crate::wire::{le_value, lemma_le_bytes_len, lemma_le_value_bound, lemma_pow256_small, push_le};
use vstd::prelude::*;

verus! {

/// Type tag of [`LeRole`].
pub const LE_ROLE_DATA_TYPE: u8 = 0x1c;

/// LE Role.
#[derive(Debug)]
pub struct LeRole {
    /// Declared length: the number of bytes after the length byte.
    pub length: u8,
    /// LE role value.
    pub le_role: u8,
}

impl LeRole {
    /// The declared length is the one of the layout.
    pub open spec fn wf(&self) -> bool {
        self.length == 2
    }

    /// The record that encodes `self`: its declared length is always 2.
    pub open spec fn wire(&self) -> Seq<u8> {
        fixed_wire(2u8, LE_ROLE_DATA_TYPE, self.le_role as nat, 1)
    }

    /// What decoding the record `s` gives.
    pub open spec fn decoded(s: Seq<u8>) -> Result<LeRole, DecodeError> {
        match fixed_size_error(s, 3, LE_ROLE_DATA_TYPE) {
            Some(e) => Err(e),
            None => Ok(LeRole { length: s[0], le_role: le_value(s.subrange(2, 3)) as u8 }),
        }
    }

    /// Creates a record holding `le_role`.
    pub fn new(le_role: u8) -> (r: Self)
        ensures
            r.length == 2,
            r.le_role == le_role,
            r.wf(),
    {
        Self { length: 2, le_role }
    }

    /// Decodes the record that starts at `offset` in `data`.
    pub fn from_with_offset(data: &Vec<u8>, offset: usize) -> (r: Result<Self, DecodeError>)
        ensures
            r == Self::decoded(record_at(data@, offset as int)),
    {
        match decode_fixed(data, offset, 1, LE_ROLE_DATA_TYPE) {
            Ok((length, value)) => {
                proof {
                    lemma_le_value_bound(record_at(data@, offset as int).subrange(2, 3));
                    lemma_pow256_small();
                }
                Ok(Self { length, le_role: value as u8 })
            },
            Err(e) => Err(e),
        }
    }

    /// Decodes the record at the start of `data`.
    pub fn try_from(data: &Vec<u8>) -> (r: Result<Self, DecodeError>)
        ensures
            r == Self::decoded(data@),
    {
        proof {
            lemma_record_at_zero(data@);
        }
        Self::from_with_offset(data, 0)
    }

    /// Only the peripheral role is supported.
    pub fn is_only_peripheral_role_supported(&self) -> (r: bool)
        ensures
            r == (self.le_role == ONLY_PERIPHERAL_ROLE_SUPPORTED),
    {
        self.le_role == ONLY_PERIPHERAL_ROLE_SUPPORTED
    }

    /// Only the central role is supported.
    pub fn is_only_central_role_supported(&self) -> (r: bool)
        ensures
            r == (self.le_role == ONLY_CENTRAL_ROLE_SUPPORTED),
    {
        self.le_role == ONLY_CENTRAL_ROLE_SUPPORTED
    }

    /// Both roles are supported; the peripheral role is preferred for connection establishment.
    pub fn is_peripheral_role_preferred_for_connection_establishment(&self) -> (r: bool)
        ensures
            r == (self.le_role == PERIPHERAL_ROLE_PREFERRED_FOR_CONNECTION_STABLISHMENT),
    {
        self.le_role == PERIPHERAL_ROLE_PREFERRED_FOR_CONNECTION_STABLISHMENT
    }

    /// Both roles are supported; the central role is preferred for connection establishment.
    pub fn is_central_role_preferred_for_connection_establishment(&self) -> (r: bool)
        ensures
            r == (self.le_role == CENTRAL_ROLE_PREFERRED_FOR_CONNECTION_STABLISHMENT),
    {
        self.le_role == CENTRAL_ROLE_PREFERRED_FOR_CONNECTION_STABLISHMENT
    }

    /// Encodes the record: length byte, tag, value little-endian.
    pub fn encode(&self) -> (r: Vec<u8>)
        ensures
            r@ == self.wire(),
            r@.len() == r@[0] + 1,
            r@[1] == LE_ROLE_DATA_TYPE,
    {
        let mut data: Vec<u8> = Vec::new();
        data.push(2u8);
        data.push(LE_ROLE_DATA_TYPE);
        push_le(&mut data, self.le_role as u128, 1);
        proof {
            lemma_le_bytes_len(self.le_role as nat, 1);
            assert(data@ =~= self.wire());
        }
        data
    }

    /// The type tag, `0x1c`.
    pub fn data_type() -> (r: u8)
        ensures
            r == LE_ROLE_DATA_TYPE,
    {
        LE_ROLE_DATA_TYPE
    }
}

/// Whether `data_type` is the tag of [`LeRole`].
pub fn is_le_role(data_type: u8) -> (r: bool)
    ensures
        r == (data_type == LE_ROLE_DATA_TYPE),
{
    data_type == LE_ROLE_DATA_TYPE
}

/// Decoding the encoding of a well-formed value gives it back.
pub proof fn lemma_le_role_decode_encode(x: LeRole)
    requires
        x.wf(),
    ensures
        LeRole::decoded(x.wire()) == Ok::<LeRole, DecodeError>(x),
{
    lemma_pow256_small();
    lemma_fixed_decode_wire(x.length, LE_ROLE_DATA_TYPE, x.le_role as nat, 1);
}

/// Encoding the decoding of a record gives the record back.
pub proof fn lemma_le_role_encode_decode(s: Seq<u8>)
    requires
        s.len() == s[0] + 1,
        s[1] == LE_ROLE_DATA_TYPE,
        LeRole::decoded(s) is Ok,
    ensures
        LeRole::decoded(s) matches Ok(v) && v.wire() == s,
{
    lemma_fixed_wire_decode(s, LE_ROLE_DATA_TYPE, 1);
    lemma_pow256_small();
}

/// Only the peripheral role is supported.
pub const ONLY_PERIPHERAL_ROLE_SUPPORTED: u8 = 0x00;

/// Only the central role is supported.
pub const ONLY_CENTRAL_ROLE_SUPPORTED: u8 = 0x01;

/// Both roles are supported; the peripheral role is preferred for connection establishment.
pub const PERIPHERAL_ROLE_PREFERRED_FOR_CONNECTION_STABLISHMENT: u8 = 0x02;

/// Both roles are supported; the central role is preferred for connection establishment.
pub const CENTRAL_ROLE_PREFERRED_FOR_CONNECTION_STABLISHMENT: u8 = 0x03;

} // verus!
