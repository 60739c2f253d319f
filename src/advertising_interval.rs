//! Advertising Interval (data type 0x1a): the interval between two advertising events, in units of 0.625 ms.

use crate::error::DecodeError;
use crate::record::{
    decode_fixed, fixed_size_error, fixed_wire, lemma_fixed_decode_wire, lemma_fixed_wire_decode,
    lemma_record_at_zero, record_at,
};
use crate::wire::{le_value, lemma_le_bytes_len, lemma_le_value_bound, lemma_pow256_small, push_le};
use vstd::prelude::*;

verus! {

/// Type tag of [`AdvertisingInterval`].
pub const ADVERTISING_INTERVAL_DATA_TYPE: u8 = 0x1a;

/// Advertising Interval.
#[derive(Debug)]
pub struct AdvertisingInterval {
    /// Declared length: the number of bytes after the length byte.
    pub length: u8,
    /// Advertising interval.
    pub advertising_interval: u16,
}

impl AdvertisingInterval {
    /// The declared length is the one of the layout.
    pub open spec fn wf(&self) -> bool {
        self.length == 3
    }

    /// The record that encodes `self`: its declared length is always 3.
    pub open spec fn wire(&self) -> Seq<u8> {
        fixed_wire(3u8, ADVERTISING_INTERVAL_DATA_TYPE, self.advertising_interval as nat, 2)
    }

    /// What decoding the record `s` gives.
    pub open spec fn decoded(s: Seq<u8>) -> Result<AdvertisingInterval, DecodeError> {
        match fixed_size_error(s, 4, ADVERTISING_INTERVAL_DATA_TYPE) {
            Some(e) => Err(e),
            None => Ok(AdvertisingInterval { length: s[0], advertising_interval: le_value(s.subrange(2, 4)) as u16 }),
        }
    }

    /// Creates a record holding `advertising_interval`.
    pub fn new(advertising_interval: u16) -> (r: Self)
        ensures
            r.length == 3,
            r.advertising_interval == advertising_interval,
            r.wf(),
    {
        Self { length: 3, advertising_interval }
    }

    /// Decodes the record that starts at `offset` in `data`.
    pub fn from_with_offset(data: &Vec<u8>, offset: usize) -> (r: Result<Self, DecodeError>)
        ensures
            r == Self::decoded(record_at(data@, offset as int)),
    {
        match decode_fixed(data, offset, 2, ADVERTISING_INTERVAL_DATA_TYPE) {
            Ok((length, value)) => {
                proof {
                    lemma_le_value_bound(record_at(data@, offset as int).subrange(2, 4));
                    lemma_pow256_small();
                }
                Ok(Self { length, advertising_interval: value as u16 })
            },
            Err(e) => Err(e),
        }
    }

    /// Decodes the record at the start of `data`.
    pub fn try_from(data: &Vec<u8>) -> (r: Result<Self, DecodeError>)
        ensures
            r == Self::decoded(data@),
    {
        proof {
            lemma_record_at_zero(data@);
        }
        Self::from_with_offset(data, 0)
    }

    /// Encodes the record: length byte, tag, value little-endian.
    pub fn encode(&self) -> (r: Vec<u8>)
        ensures
            r@ == self.wire(),
            r@.len() == r@[0] + 1,
            r@[1] == ADVERTISING_INTERVAL_DATA_TYPE,
    {
        let mut data: Vec<u8> = Vec::new();
        data.push(3u8);
        data.push(ADVERTISING_INTERVAL_DATA_TYPE);
        push_le(&mut data, self.advertising_interval as u128, 2);
        proof {
            lemma_le_bytes_len(self.advertising_interval as nat, 2);
            assert(data@ =~= self.wire());
        }
        data
    }

    /// The type tag, `0x1a`.
    pub fn data_type() -> (r: u8)
        ensures
            r == ADVERTISING_INTERVAL_DATA_TYPE,
    {
        ADVERTISING_INTERVAL_DATA_TYPE
    }
}

/// Whether `data_type` is the tag of [`AdvertisingInterval`].
pub fn is_advertising_interval(data_type: u8) -> (r: bool)
    ensures
        r == (data_type == ADVERTISING_INTERVAL_DATA_TYPE),
{
    data_type == ADVERTISING_INTERVAL_DATA_TYPE
}

/// Decoding the encoding of a well-formed value gives it back.
pub proof fn lemma_advertising_interval_decode_encode(x: AdvertisingInterval)
    requires
        x.wf(),
    ensures
        AdvertisingInterval::decoded(x.wire()) == Ok::<AdvertisingInterval, DecodeError>(x),
{
    lemma_pow256_small();
    lemma_fixed_decode_wire(x.length, ADVERTISING_INTERVAL_DATA_TYPE, x.advertising_interval as nat, 2);
}

/// Encoding the decoding of a record gives the record back.
pub proof fn lemma_advertising_interval_encode_decode(s: Seq<u8>)
    requires
        s.len() == s[0] + 1,
        s[1] == ADVERTISING_INTERVAL_DATA_TYPE,
        AdvertisingInterval::decoded(s) is Ok,
    ensures
        AdvertisingInterval::decoded(s) matches Ok(v) && v.wire() == s,
{
    lemma_fixed_wire_decode(s, ADVERTISING_INTERVAL_DATA_TYPE, 2);
    lemma_pow256_small();
}

} // verus!
