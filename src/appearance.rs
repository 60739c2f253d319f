//! Appearance (data type 0x19): the external appearance of the device, a
//! 16-bit value made of a category (bits 6 to 15) and a sub-category (bits 0
//! to 5).

use crate::error::DecodeError;
use crate::record::{
    decode_fixed, fixed_size_error, fixed_wire, lemma_fixed_decode_wire, lemma_fixed_wire_decode,
    lemma_record_at_zero, record_at,
};
use crate::wire::{le_value, lemma_le_bytes_len, lemma_le_value_bound, lemma_pow256_small, push_le};
use vstd::prelude::*;

verus! {

/// Type tag of [`Appearance`].
pub const APPEARANCE_DATA_TYPE: u8 = 0x19;

/// Appearance.
#[derive(Debug)]
pub struct Appearance {
    /// Declared length: the number of bytes after the length byte.
    pub length: u8,
    /// Appearance value.
    pub appearance: u16,
}

impl Appearance {
    /// The declared length is the one of the layout.
    pub open spec fn wf(&self) -> bool {
        self.length == 3
    }

    /// The record that encodes `self`: its declared length is always 3.
    pub open spec fn wire(&self) -> Seq<u8> {
        fixed_wire(3u8, APPEARANCE_DATA_TYPE, self.appearance as nat, 2)
    }

    /// What decoding the record `s` gives.
    pub open spec fn decoded(s: Seq<u8>) -> Result<Appearance, DecodeError> {
        match fixed_size_error(s, 4, APPEARANCE_DATA_TYPE) {
            Some(e) => Err(e),
            None => Ok(Appearance { length: s[0], appearance: le_value(s.subrange(2, 4)) as u16 }),
        }
    }

    /// Creates an appearance record holding `appearance`.
    pub fn new(appearance: u16) -> (r: Self)
        ensures
            r.length == 3,
            r.appearance == appearance,
            r.wf(),
    {
        Self { length: 3, appearance }
    }

    /// Decodes the record that starts at `offset` in `data`.
    pub fn from_with_offset(data: &Vec<u8>, offset: usize) -> (r: Result<Self, DecodeError>)
        ensures
            r == Self::decoded(record_at(data@, offset as int)),
    {
        match decode_fixed(data, offset, 2, APPEARANCE_DATA_TYPE) {
            Ok((length, value)) => {
                proof {
                    lemma_le_value_bound(record_at(data@, offset as int).subrange(2, 4));
                    lemma_pow256_small();
                }
                Ok(Self { length, appearance: value as u16 })
            },
            Err(e) => Err(e),
        }
    }

    /// Decodes the record at the start of `data`.
    pub fn try_from(data: &Vec<u8>) -> (r: Result<Self, DecodeError>)
        ensures
            r == Self::decoded(data@),
    {
        proof {
            lemma_record_at_zero(data@);
        }
        Self::from_with_offset(data, 0)
    }

    /// The category: bits 6 to 15 of the value.
    pub fn category(&self) -> (r: u16)
        ensures
            r == (self.appearance >> 6u16) & 0x3ffu16,
    {
        (self.appearance >> 6u16) & 0x3ffu16
    }

    /// The sub-category: bits 0 to 5 of the value.
    pub fn sub_category(&self) -> (r: u16)
        ensures
            r == self.appearance & 0x3fu16,
    {
        self.appearance & 0x3fu16
    }

    /// Encodes the record: length byte, tag, value little-endian.
    pub fn encode(&self) -> (r: Vec<u8>)
        ensures
            r@ == self.wire(),
            r@.len() == r@[0] + 1,
            r@[1] == APPEARANCE_DATA_TYPE,
    {
        let mut data: Vec<u8> = Vec::new();
        data.push(3u8);
        data.push(APPEARANCE_DATA_TYPE);
        push_le(&mut data, self.appearance as u128, 2);
        proof {
            lemma_le_bytes_len(self.appearance as nat, 2);
            assert(data@ =~= self.wire());
        }
        data
    }

    /// The type tag, `0x19`.
    pub fn data_type() -> (r: u8)
        ensures
            r == APPEARANCE_DATA_TYPE,
    {
        APPEARANCE_DATA_TYPE
    }
}

/// Whether `data_type` is the appearance tag.
pub fn is_appearance(data_type: u8) -> (r: bool)
    ensures
        r == (data_type == APPEARANCE_DATA_TYPE),
{
    data_type == APPEARANCE_DATA_TYPE
}

/// Decoding the encoding of a well-formed appearance gives it back.
pub proof fn lemma_appearance_decode_encode(x: Appearance)
    requires
        x.wf(),
    ensures
        Appearance::decoded(x.wire()) == Ok::<Appearance, DecodeError>(x),
{
    lemma_pow256_small();
    lemma_fixed_decode_wire(x.length, APPEARANCE_DATA_TYPE, x.appearance as nat, 2);
}

/// Encoding the decoding of an appearance record gives the record back.
pub proof fn lemma_appearance_encode_decode(s: Seq<u8>)
    requires
        s.len() == s[0] + 1,
        s[1] == APPEARANCE_DATA_TYPE,
        Appearance::decoded(s) is Ok,
    ensures
        Appearance::decoded(s) matches Ok(v) && v.wire() == s,
{
    lemma_fixed_wire_decode(s, APPEARANCE_DATA_TYPE, 2);
    lemma_pow256_small();
}

/// The category (bits 6 to 15) and the sub-category (bits 0 to 5) together
/// make up the whole appearance value.
pub proof fn lemma_appearance_category_split(appearance: u16)
    ensures
        (((appearance >> 6u16) & 0x3ffu16) << 6u16) | (appearance & 0x3fu16) == appearance,
{
    assert((((appearance >> 6u16) & 0x3ffu16) << 6u16) | (appearance & 0x3fu16) == appearance)
        by (bit_vector);
}

} // verus!
