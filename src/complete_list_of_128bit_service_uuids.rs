//! Complete List of 128-bit Service Class UUIDs (data type 0x07).

use crate::ble_uuid::{lemma_uuid_ext_equal, BleUuid};
use crate::error::DecodeError;
use crate::record::{lemma_record_at_zero, record_at};
use crate::uuid_list::{
    decode_list, fits_element, lemma_list_decode_wire, lemma_list_wire_decode, lemma_list_wire_len, list_error,
    list_matches, list_wire, push_list,
};
use vstd::prelude::*;

verus! {

/// Type tag of [`CompleteListOf128BitServiceUuids`].
pub const COMPLETE_LIST_OF_128BIT_SERVICE_UUIDS_DATA_TYPE: u8 = 0x07;

/// Complete List of 128-bit Service Class UUIDs.
#[derive(Debug)]
pub struct CompleteListOf128BitServiceUuids {
    /// Declared length: the number of bytes after the length byte.
    pub length: u8,
    /// The UUIDs, in the order of the record.
    pub uuids: Vec<BleUuid>,
}

impl CompleteListOf128BitServiceUuids {
    /// At least one UUID, each of which a 16-byte element can carry, and the
    /// declared length of the layout.
    pub open spec fn wf(&self) -> bool {
        &&& self.uuids@.len() >= 1
        &&& self.length == self.uuids@.len() * 16 + 1
        &&& forall|i: int|
            0 <= i < self.uuids@.len() ==> fits_element(#[trigger] self.uuids@[i].bytes@, 16)
    }

    /// The record that encodes `self`: the length byte counts the tag and
    /// the elements.
    pub open spec fn wire(&self) -> Seq<u8> {
        list_wire((self.uuids@.len() * 16 + 1) as u8, COMPLETE_LIST_OF_128BIT_SERVICE_UUIDS_DATA_TYPE, self.uuids@, 16)
    }

    /// `r` is what decoding the record `s` gives.
    pub open spec fn decodes(s: Seq<u8>, r: Result<CompleteListOf128BitServiceUuids, DecodeError>) -> bool {
        match list_error(s, 16, COMPLETE_LIST_OF_128BIT_SERVICE_UUIDS_DATA_TYPE) {
            Some(e) => r == Err::<CompleteListOf128BitServiceUuids, DecodeError>(e),
            None => r matches Ok(v) && v.length == s[0] && list_matches(s, 16, v.uuids@),
        }
    }

    /// Creates a list record holding `uuids`.
    pub fn new(uuids: &Vec<BleUuid>) -> (r: Self)
        requires
            uuids@.len() * 16 + 1 <= 255,
        ensures
            r.length == uuids@.len() * 16 + 1,
            r.uuids@ == uuids@,
    {
        let mut copy: Vec<BleUuid> = Vec::new();
        let mut i: usize = 0;
        while i < uuids.len()
            invariant
                i <= uuids@.len(),
                copy@ == uuids@.subrange(0, i as int),
            decreases uuids@.len() - i,
        {
            copy.push(uuids[i]);
            i = i + 1;
            proof {
                assert(copy@ =~= uuids@.subrange(0, i as int));
            }
        }
        proof {
            assert(uuids@.subrange(0, uuids@.len() as int) =~= uuids@);
        }
        Self { length: (uuids.len() * 16 + 1) as u8, uuids: copy }
    }

    /// Decodes the record that starts at `offset` in `data`.
    pub fn from_with_offset(data: &Vec<u8>, offset: usize) -> (r: Result<Self, DecodeError>)
        ensures
            Self::decodes(record_at(data@, offset as int), r),
    {
        match decode_list(data, offset, 16, COMPLETE_LIST_OF_128BIT_SERVICE_UUIDS_DATA_TYPE) {
            Ok((length, uuids)) => Ok(Self { length, uuids }),
            Err(e) => Err(e),
        }
    }

    /// Decodes the record at the start of `data`.
    pub fn try_from(data: &Vec<u8>) -> (r: Result<Self, DecodeError>)
        ensures
            Self::decodes(data@, r),
    {
        proof {
            lemma_record_at_zero(data@);
        }
        Self::from_with_offset(data, 0)
    }

    /// Encodes the record: length byte (1 + 16 per UUID), tag, one 16-byte
    /// element per UUID. The elements must fit the one-byte length.
    pub fn encode(&self) -> (r: Vec<u8>)
        requires
            self.uuids@.len() * 16 + 1 <= 255,
        ensures
            r@ == self.wire(),
            r@.len() == r@[0] + 1,
            r@[1] == COMPLETE_LIST_OF_128BIT_SERVICE_UUIDS_DATA_TYPE,
    {
        let mut data: Vec<u8> = Vec::new();
        data.push((self.uuids.len() * 16 + 1) as u8);
        data.push(COMPLETE_LIST_OF_128BIT_SERVICE_UUIDS_DATA_TYPE);
        push_list(&mut data, &self.uuids, 16);
        proof {
            assert(data@ =~= self.wire());
            lemma_list_wire_len(
                (self.uuids@.len() * 16 + 1) as u8,
                COMPLETE_LIST_OF_128BIT_SERVICE_UUIDS_DATA_TYPE,
                self.uuids@,
                16,
            );
        }
        data
    }

    /// The type tag, `0x07`.
    pub fn data_type() -> (r: u8)
        ensures
            r == COMPLETE_LIST_OF_128BIT_SERVICE_UUIDS_DATA_TYPE,
    {
        COMPLETE_LIST_OF_128BIT_SERVICE_UUIDS_DATA_TYPE
    }
}

/// Whether `data_type` is the tag of [`CompleteListOf128BitServiceUuids`].
pub fn is_complete_list_of_128bit_service_uuids(data_type: u8) -> (r: bool)
    ensures
        r == (data_type == COMPLETE_LIST_OF_128BIT_SERVICE_UUIDS_DATA_TYPE),
{
    data_type == COMPLETE_LIST_OF_128BIT_SERVICE_UUIDS_DATA_TYPE
}

/// Decoding the encoding of a well-formed list gives its UUIDs back, in order.
pub proof fn lemma_complete_list_of_128bit_service_uuids_decode_encode(x: CompleteListOf128BitServiceUuids, r: Result<CompleteListOf128BitServiceUuids, DecodeError>)
    requires
        x.wf(),
        CompleteListOf128BitServiceUuids::decodes(x.wire(), r),
    ensures
        r matches Ok(v) && v.length == x.length && v.uuids@ == x.uuids@,
{
    lemma_list_decode_wire(x.length, COMPLETE_LIST_OF_128BIT_SERVICE_UUIDS_DATA_TYPE, x.uuids@, 16);
    if let Ok(v) = r {
        assert forall|i: int| 0 <= i < x.uuids@.len() implies v.uuids@[i] == x.uuids@[i] by {
            lemma_uuid_ext_equal(v.uuids@[i], x.uuids@[i]);
        }
        assert(v.uuids@ =~= x.uuids@);
    }
}

/// Encoding the decoding of a list record gives the record back, and the
/// decoded list is well formed.
pub proof fn lemma_complete_list_of_128bit_service_uuids_encode_decode(s: Seq<u8>, r: Result<CompleteListOf128BitServiceUuids, DecodeError>)
    requires
        s.len() == s[0] + 1,
        s[1] == COMPLETE_LIST_OF_128BIT_SERVICE_UUIDS_DATA_TYPE,
        CompleteListOf128BitServiceUuids::decodes(s, r),
        r is Ok,
    ensures
        r matches Ok(v) && v.wire() == s && v.wf(),
{
    if let Ok(v) = r {
        lemma_list_wire_decode(s, COMPLETE_LIST_OF_128BIT_SERVICE_UUIDS_DATA_TYPE, v.uuids@, 16);
    }
}

} // verus!
