//! Secure Simple Pairing Hash C-256 (data type 0x1d): a 128-bit out-of-band pairing hash.

use crate::error::DecodeError;
use crate::record::{
    decode_fixed, fixed_size_error, fixed_wire, lemma_fixed_decode_wire, lemma_fixed_wire_decode,
    lemma_record_at_zero, record_at,
};
use crate::wire::{le_value, lemma_le_bytes_len, lemma_le_value_bound, lemma_pow256_16, push_le};
use vstd::prelude::*;

verus! {

/// Type tag of [`SecureSimplePairingHashC256`].
pub const SECURE_SIMPLE_PAIRING_HASH_C256_DATA_TYPE: u8 = 0x1d;

/// Secure Simple Pairing Hash C-256.
#[derive(Debug)]
pub struct SecureSimplePairingHashC256 {
    /// Declared length: the number of bytes after the length byte.
    pub length: u8,
    /// The 128-bit value.
    pub secure_simple_pairing_hash_c256: u128,
}

impl SecureSimplePairingHashC256 {
    /// The declared length is the one of the layout.
    pub open spec fn wf(&self) -> bool {
        self.length == 17
    }

    /// The record that encodes `self`: its declared length is always 17.
    pub open spec fn wire(&self) -> Seq<u8> {
        fixed_wire(17u8, SECURE_SIMPLE_PAIRING_HASH_C256_DATA_TYPE, self.secure_simple_pairing_hash_c256 as nat, 16)
    }

    /// What decoding the record `s` gives.
    pub open spec fn decoded(s: Seq<u8>) -> Result<SecureSimplePairingHashC256, DecodeError> {
        match fixed_size_error(s, 18, SECURE_SIMPLE_PAIRING_HASH_C256_DATA_TYPE) {
            Some(e) => Err(e),
            None => Ok(SecureSimplePairingHashC256 { length: s[0], secure_simple_pairing_hash_c256: le_value(s.subrange(2, 18)) as u128 }),
        }
    }

    /// Creates a record holding `secure_simple_pairing_hash_c256`.
    pub fn new(secure_simple_pairing_hash_c256: u128) -> (r: Self)
        ensures
            r.length == 17,
            r.secure_simple_pairing_hash_c256 == secure_simple_pairing_hash_c256,
            r.wf(),
    {
        Self { length: 17, secure_simple_pairing_hash_c256 }
    }

    /// Decodes the record that starts at `offset` in `data`.
    pub fn from_with_offset(data: &Vec<u8>, offset: usize) -> (r: Result<Self, DecodeError>)
        ensures
            r == Self::decoded(record_at(data@, offset as int)),
    {
        match decode_fixed(data, offset, 16, SECURE_SIMPLE_PAIRING_HASH_C256_DATA_TYPE) {
            Ok((length, value)) => {
                proof {
                    lemma_le_value_bound(record_at(data@, offset as int).subrange(2, 18));
                    lemma_pow256_16();
                }
                Ok(Self { length, secure_simple_pairing_hash_c256: value as u128 })
            },
            Err(e) => Err(e),
        }
    }

    /// Decodes the record at the start of `data`.
    pub fn try_from(data: &Vec<u8>) -> (r: Result<Self, DecodeError>)
        ensures
            r == Self::decoded(data@),
    {
        proof {
            lemma_record_at_zero(data@);
        }
        Self::from_with_offset(data, 0)
    }

    /// Encodes the record: length byte, tag, value little-endian.
    pub fn encode(&self) -> (r: Vec<u8>)
        ensures
            r@ == self.wire(),
            r@.len() == r@[0] + 1,
            r@[1] == SECURE_SIMPLE_PAIRING_HASH_C256_DATA_TYPE,
    {
        let mut data: Vec<u8> = Vec::new();
        data.push(17u8);
        data.push(SECURE_SIMPLE_PAIRING_HASH_C256_DATA_TYPE);
        push_le(&mut data, self.secure_simple_pairing_hash_c256 as u128, 16);
        proof {
            lemma_le_bytes_len(self.secure_simple_pairing_hash_c256 as nat, 16);
            assert(data@ =~= self.wire());
        }
        data
    }

    /// The type tag, `0x1d`.
    pub fn data_type() -> (r: u8)
        ensures
            r == SECURE_SIMPLE_PAIRING_HASH_C256_DATA_TYPE,
    {
        SECURE_SIMPLE_PAIRING_HASH_C256_DATA_TYPE
    }
}

/// Whether `data_type` is the tag of [`SecureSimplePairingHashC256`].
pub fn is_secure_simple_pairing_hash_c256(data_type: u8) -> (r: bool)
    ensures
        r == (data_type == SECURE_SIMPLE_PAIRING_HASH_C256_DATA_TYPE),
{
    data_type == SECURE_SIMPLE_PAIRING_HASH_C256_DATA_TYPE
}

/// Decoding the encoding of a well-formed value gives it back.
pub proof fn lemma_secure_simple_pairing_hash_c256_decode_encode(x: SecureSimplePairingHashC256)
    requires
        x.wf(),
    ensures
        SecureSimplePairingHashC256::decoded(x.wire()) == Ok::<SecureSimplePairingHashC256, DecodeError>(x),
{
    lemma_pow256_16();
    lemma_fixed_decode_wire(x.length, SECURE_SIMPLE_PAIRING_HASH_C256_DATA_TYPE, x.secure_simple_pairing_hash_c256 as nat, 16);
}

/// Encoding the decoding of a record gives the record back.
pub proof fn lemma_secure_simple_pairing_hash_c256_encode_decode(s: Seq<u8>)
    requires
        s.len() == s[0] + 1,
        s[1] == SECURE_SIMPLE_PAIRING_HASH_C256_DATA_TYPE,
        SecureSimplePairingHashC256::decoded(s) is Ok,
    ensures
        SecureSimplePairingHashC256::decoded(s) matches Ok(v) && v.wire() == s,
{
    lemma_fixed_wire_decode(s, SECURE_SIMPLE_PAIRING_HASH_C256_DATA_TYPE, 16);
    lemma_pow256_16();
}

} // verus!
