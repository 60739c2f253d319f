//! Advertising Interval - long (data type 0x2f): an advertising interval of
//! three or four bytes; the declared length tells which.

use crate::error::DecodeError;
use crate::record::{check_variable_size, lemma_record_at_zero, record_at, variable_size_error};
use crate::wire::{
    le_bytes, le_value, lemma_le_bytes_len, lemma_le_bytes_of_value, lemma_le_value_bound,
    lemma_le_value_of_bytes, lemma_pow256_small, push_le, read_le,
};
use vstd::prelude::*;

verus! {

/// Type tag of [`AdvertisingIntervalLong`].
pub const ADVERTISING_INTERVAL_LONG_DATA_TYPE: u8 = 0x2f;

/// Advertising Interval - long.
#[derive(Debug)]
pub struct AdvertisingIntervalLong {
    /// Declared length: 4 for a three-byte interval, 5 for a four-byte one.
    pub length: u8,
    /// Advertising interval.
    pub advertising_interval_long: u32,
}

/// The number of bytes that carry the interval in a record of declared length `length`.
pub open spec fn interval_width(length: u8) -> nat {
    if length == 4 {
        3
    } else {
        4
    }
}

impl AdvertisingIntervalLong {
    /// The declared length is 4 with an interval that fits in three bytes, or 5.
    pub open spec fn wf(&self) -> bool {
        ||| self.length == 4 && self.advertising_interval_long < 0x100_0000
        ||| self.length == 5
    }

    /// The record that encodes `self`: the interval in three bytes when the
    /// declared length is 4 and in four otherwise, under the length byte that
    /// fits those bytes.
    pub open spec fn wire(&self) -> Seq<u8> {
        seq![(interval_width(self.length) + 1) as u8, ADVERTISING_INTERVAL_LONG_DATA_TYPE] + le_bytes(
            self.advertising_interval_long as nat,
            interval_width(self.length),
        )
    }

    /// The size check: the record checks for a three-byte interval, and a
    /// declared length of at most 5.
    pub open spec fn size_error(s: Seq<u8>) -> Option<DecodeError> {
        match variable_size_error(s, 5) {
            Some(e) => Some(e),
            None => if s[0] > 5 {
                Some(
                    DecodeError::InvalidFieldEncoding {
                        data_type: ADVERTISING_INTERVAL_LONG_DATA_TYPE,
                        length: s[0],
                    },
                )
            } else {
                None
            },
        }
    }

    /// What decoding the record `s` gives.
    pub open spec fn decoded(s: Seq<u8>) -> Result<AdvertisingIntervalLong, DecodeError> {
        match Self::size_error(s) {
            Some(e) => Err(e),
            None => Ok(
                AdvertisingIntervalLong {
                    length: s[0],
                    advertising_interval_long: le_value(s.subrange(2, s[0] + 1)) as u32,
                },
            ),
        }
    }

    /// Creates a record holding `advertising_interval_long`, in four bytes
    /// when `is_u32` holds and in three otherwise.
    pub fn new(is_u32: bool, advertising_interval_long: u32) -> (r: Self)
        ensures
            r.length == if is_u32 { 5u8 } else { 4u8 },
            r.advertising_interval_long == advertising_interval_long,
    {
        Self { length: if is_u32 { 5 } else { 4 }, advertising_interval_long }
    }

    /// Decodes the record that starts at `offset` in `data`.
    pub fn from_with_offset(data: &Vec<u8>, offset: usize) -> (r: Result<Self, DecodeError>)
        ensures
            r == Self::decoded(record_at(data@, offset as int)),
    {
        if let Some(e) = check_variable_size(data, offset, 5) {
            return Err(e);
        }
        let length = data[offset];
        if length > 5 {
            return Err(
                DecodeError::InvalidFieldEncoding {
                    data_type: ADVERTISING_INTERVAL_LONG_DATA_TYPE,
                    length,
                },
            );
        }
        let ghost s = record_at(data@, offset as int);
        let len = data.len();
        let value = read_le(data, offset + 2, length as usize - 1);
        proof {
            let p = s.subrange(2, s[0] + 1);
            assert(p =~= data@.subrange(offset + 2, offset + 2 + (length - 1)));
            lemma_le_value_bound(p);
            lemma_pow256_small();
        }
        Ok(Self { length, advertising_interval_long: value as u32 })
    }

    /// Decodes the record at the start of `data`.
    pub fn try_from(data: &Vec<u8>) -> (r: Result<Self, DecodeError>)
        ensures
            r == Self::decoded(data@),
    {
        proof {
            lemma_record_at_zero(data@);
        }
        Self::from_with_offset(data, 0)
    }

    /// Encodes the record: length byte, tag, interval little-endian in three
    /// bytes when the declared length is 4 and in four otherwise; the length
    /// byte written is 4 or 5 accordingly.
    pub fn encode(&self) -> (r: Vec<u8>)
        ensures
            r@ == self.wire(),
            r@.len() == r@[0] + 1,
            r@[1] == ADVERTISING_INTERVAL_LONG_DATA_TYPE,
    {
        let width: usize = if self.length == 4 { 3 } else { 4 };
        let mut data: Vec<u8> = Vec::new();
        data.push(width as u8 + 1);
        data.push(ADVERTISING_INTERVAL_LONG_DATA_TYPE);
        push_le(&mut data, self.advertising_interval_long as u128, width);
        proof {
            lemma_le_bytes_len(self.advertising_interval_long as nat, width as nat);
            assert(data@ =~= self.wire());
        }
        data
    }

    /// The type tag, `0x2f`.
    pub fn data_type() -> (r: u8)
        ensures
            r == ADVERTISING_INTERVAL_LONG_DATA_TYPE,
    {
        ADVERTISING_INTERVAL_LONG_DATA_TYPE
    }
}

/// Whether `data_type` is the tag of [`AdvertisingIntervalLong`].
pub fn is_advertising_interval_long(data_type: u8) -> (r: bool)
    ensures
        r == (data_type == ADVERTISING_INTERVAL_LONG_DATA_TYPE),
{
    data_type == ADVERTISING_INTERVAL_LONG_DATA_TYPE
}

/// Decoding the encoding of a well-formed interval gives it back.
pub proof fn lemma_advertising_interval_long_decode_encode(x: AdvertisingIntervalLong)
    requires
        x.wf(),
    ensures
        AdvertisingIntervalLong::decoded(x.wire()) == Ok::<AdvertisingIntervalLong, DecodeError>(x),
{
    let n = interval_width(x.length);
    let v = x.advertising_interval_long as nat;
    lemma_pow256_small();
    lemma_le_bytes_len(v, n);
    lemma_le_value_of_bytes(v, n);
    assert(x.wire().subrange(2, x.length + 1) =~= le_bytes(v, n));
}

/// Encoding the decoding of an interval record gives the record back.
pub proof fn lemma_advertising_interval_long_encode_decode(s: Seq<u8>)
    requires
        s.len() == s[0] + 1,
        s[1] == ADVERTISING_INTERVAL_LONG_DATA_TYPE,
        AdvertisingIntervalLong::decoded(s) is Ok,
    ensures
        AdvertisingIntervalLong::decoded(s) matches Ok(v) && v.wire() == s && v.wf(),
{
    let p = s.subrange(2, s[0] + 1);
    lemma_le_value_bound(p);
    lemma_pow256_small();
    lemma_le_bytes_of_value(p);
    assert(seq![s[0], s[1]] + p =~= s);
}

} // verus!
