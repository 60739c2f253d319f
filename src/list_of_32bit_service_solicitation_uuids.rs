//! List of 32-bit Service Solicitation UUIDs (data type 0x1f).

use crate::ble_uuid::{lemma_uuid_ext_equal, BleUuid};
use crate::error::DecodeError;
use crate::record::{lemma_record_at_zero, record_at};
use crate::uuid_list::{
    decode_list, fits_element, lemma_list_decode_wire, lemma_list_wire_decode, lemma_list_wire_len, list_error,
    list_matches, list_wire, push_list,
};
use vstd::prelude::*;

verus! {

/// Type tag of [`ListOf32BitServiceSolicitationUUIDs`].
pub const LIST_OF_32BIT_SERVICE_SOLICITATION_UUIDS_DATA_TYPE: u8 = 0x1f;

/// List of 32-bit Service Solicitation UUIDs.
#[derive(Debug)]
pub struct ListOf32BitServiceSolicitationUUIDs {
    /// Declared length: the number of bytes after the length byte.
    pub length: u8,
    /// The UUIDs, in the order of the record.
    pub uuids: Vec<BleUuid>,
}

impl ListOf32BitServiceSolicitationUUIDs {
    /// At least one UUID, each of which a 4-byte element can carry, and the
    /// declared length of the layout.
    pub open spec fn wf(&self) -> bool {
        &&& self.uuids@.len() >= 1
        &&& self.length == self.uuids@.len() * 4 + 1
        &&& forall|i: int|
            0 <= i < self.uuids@.len() ==> fits_element(#[trigger] self.uuids@[i].bytes@, 4)
    }

    /// The record that encodes `self`: the length byte counts the tag and
    /// the elements.
    pub open spec fn wire(&self) -> Seq<u8> {
        list_wire((self.uuids@.len() * 4 + 1) as u8, LIST_OF_32BIT_SERVICE_SOLICITATION_UUIDS_DATA_TYPE, self.uuids@, 4)
    }

    /// `r` is what decoding the record `s` gives.
    pub open spec fn decodes(s: Seq<u8>, r: Result<ListOf32BitServiceSolicitationUUIDs, DecodeError>) -> bool {
        match list_error(s, 4, LIST_OF_32BIT_SERVICE_SOLICITATION_UUIDS_DATA_TYPE) {
            Some(e) => r == Err::<ListOf32BitServiceSolicitationUUIDs, DecodeError>(e),
            None => r matches Ok(v) && v.length == s[0] && list_matches(s, 4, v.uuids@),
        }
    }

    /// Creates a list record holding `uuids`.
    pub fn new(uuids: &Vec<BleUuid>) -> (r: Self)
        requires
            uuids@.len() * 4 + 1 <= 255,
        ensures
            r.length == uuids@.len() * 4 + 1,
            r.uuids@ == uuids@,
    {
        let mut copy: Vec<BleUuid> = Vec::new();
        let mut i: usize = 0;
        while i < uuids.len()
            invariant
                i <= uuids@.len(),
                copy@ == uuids@.subrange(0, i as int),
            decreases uuids@.len() - i,
        {
            copy.push(uuids[i]);
            i = i + 1;
            proof {
                assert(copy@ =~= uuids@.subrange(0, i as int));
            }
        }
        proof {
            assert(uuids@.subrange(0, uuids@.len() as int) =~= uuids@);
        }
        Self { length: (uuids.len() * 4 + 1) as u8, uuids: copy }
    }

    /// Decodes the record that starts at `offset` in `data`.
    pub fn from_with_offset(data: &Vec<u8>, offset: usize) -> (r: Result<Self, DecodeError>)
        ensures
            Self::decodes(record_at(data@, offset as int), r),
    {
        match decode_list(data, offset, 4, LIST_OF_32BIT_SERVICE_SOLICITATION_UUIDS_DATA_TYPE) {
            Ok((length, uuids)) => Ok(Self { length, uuids }),
            Err(e) => Err(e),
        }
    }

    /// Decodes the record at the start of `data`.
    pub fn try_from(data: &Vec<u8>) -> (r: Result<Self, DecodeError>)
        ensures
            Self::decodes(data@, r),
    {
        proof {
            lemma_record_at_zero(data@);
        }
        Self::from_with_offset(data, 0)
    }

    /// Encodes the record: length byte (1 + 4 per UUID), tag, one 4-byte
    /// element per UUID. The elements must fit the one-byte length.
    pub fn encode(&self) -> (r: Vec<u8>)
        requires
            self.uuids@.len() * 4 + 1 <= 255,
        ensures
            r@ == self.wire(),
            r@.len() == r@[0] + 1,
            r@[1] == LIST_OF_32BIT_SERVICE_SOLICITATION_UUIDS_DATA_TYPE,
    {
        let mut data: Vec<u8> = Vec::new();
        data.push((self.uuids.len() * 4 + 1) as u8);
        data.push(LIST_OF_32BIT_SERVICE_SOLICITATION_UUIDS_DATA_TYPE);
        push_list(&mut data, &self.uuids, 4);
        proof {
            assert(data@ =~= self.wire());
            lemma_list_wire_len(
                (self.uuids@.len() * 4 + 1) as u8,
                LIST_OF_32BIT_SERVICE_SOLICITATION_UUIDS_DATA_TYPE,
                self.uuids@,
                4,
            );
        }
        data
    }

    /// The type tag, `0x1f`.
    pub fn data_type() -> (r: u8)
        ensures
            r == LIST_OF_32BIT_SERVICE_SOLICITATION_UUIDS_DATA_TYPE,
    {
        LIST_OF_32BIT_SERVICE_SOLICITATION_UUIDS_DATA_TYPE
    }
}

/// Whether `data_type` is the tag of [`ListOf32BitServiceSolicitationUUIDs`].
pub fn is_list_of_32bit_service_solicitation_uuids(data_type: u8) -> (r: bool)
    ensures
        r == (data_type == LIST_OF_32BIT_SERVICE_SOLICITATION_UUIDS_DATA_TYPE),
{
    data_type == LIST_OF_32BIT_SERVICE_SOLICITATION_UUIDS_DATA_TYPE
}

/// Decoding the encoding of a well-formed list gives its UUIDs back, in order.
pub proof fn lemma_list_of_32bit_service_solicitation_uuids_decode_encode(x: ListOf32BitServiceSolicitationUUIDs, r: Result<ListOf32BitServiceSolicitationUUIDs, DecodeError>)
    requires
        x.wf(),
        ListOf32BitServiceSolicitationUUIDs::decodes(x.wire(), r),
    ensures
        r matches Ok(v) && v.length == x.length && v.uuids@ == x.uuids@,
{
    lemma_list_decode_wire(x.length, LIST_OF_32BIT_SERVICE_SOLICITATION_UUIDS_DATA_TYPE, x.uuids@, 4);
    if let Ok(v) = r {
        assert forall|i: int| 0 <= i < x.uuids@.len() implies v.uuids@[i] == x.uuids@[i] by {
            lemma_uuid_ext_equal(v.uuids@[i], x.uuids@[i]);
        }
        assert(v.uuids@ =~= x.uuids@);
    }
}

/// Encoding the decoding of a list record gives the record back, and the
/// decoded list is well formed.
pub proof fn lemma_list_of_32bit_service_solicitation_uuids_encode_decode(s: Seq<u8>, r: Result<ListOf32BitServiceSolicitationUUIDs, DecodeError>)
    requires
        s.len() == s[0] + 1,
        s[1] == LIST_OF_32BIT_SERVICE_SOLICITATION_UUIDS_DATA_TYPE,
        ListOf32BitServiceSolicitationUUIDs::decodes(s, r),
        r is Ok,
    ensures
        r matches Ok(v) && v.wire() == s && v.wf(),
{
    if let Ok(v) = r {
        lemma_list_wire_decode(s, LIST_OF_32BIT_SERVICE_SOLICITATION_UUIDS_DATA_TYPE, v.uuids@, 4);
    }
}

} // verus!
