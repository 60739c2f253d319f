//! Service Data - 16-bit UUID (data type 0x16): a 16-bit service UUID followed by its data.

use crate::ble_uuid::{is_short, lemma_uuid_ext_equal, BleUuid};
use crate::error::DecodeError;
use crate::record::{lemma_record_at_zero, push_all, record_at, variable_size_error};
use crate::service_data::{
    decode_service_data, lemma_service_data_decode_wire, lemma_service_data_wire_decode,
    service_data_matches, service_data_wire,
};
use vstd::prelude::*;

verus! {

/// Type tag of [`ServiceData16BitUUID`].
pub const SERVICE_DATA_16BIT_UUID_DATA_TYPE: u8 = 0x16;

/// Service Data - 16-bit UUID.
#[derive(Debug)]
pub struct ServiceData16BitUUID {
    /// Declared length: the number of bytes after the length byte.
    pub length: u8,
    /// The service UUID.
    pub uuid: BleUuid,
    /// The service data that follows the UUID.
    pub additional_service_data: Vec<u8>,
}

impl ServiceData16BitUUID {
    /// The UUID is made from the Base UUID, and the declared length is the
    /// one of the layout.
    pub open spec fn wf(&self) -> bool {
        &&& is_short(self.uuid.bytes@, 2)
        &&& self.length == 3 + self.additional_service_data@.len()
    }

    /// The record that encodes `self`: the length byte counts the tag, the
    /// short form and the data.
    pub open spec fn wire(&self) -> Seq<u8> {
        service_data_wire(
            (3 + self.additional_service_data@.len()) as u8,
            SERVICE_DATA_16BIT_UUID_DATA_TYPE,
            self.uuid.bytes@,
            2,
            self.additional_service_data@,
        )
    }

    /// `r` is what decoding the record `s` gives.
    pub open spec fn decodes(s: Seq<u8>, r: Result<ServiceData16BitUUID, DecodeError>) -> bool {
        match variable_size_error(s, 4) {
            Some(e) => r == Err::<ServiceData16BitUUID, DecodeError>(e),
            None => r matches Ok(v) && v.length == s[0] && service_data_matches(
                s,
                2,
                v.uuid.bytes@,
                v.additional_service_data@,
            ),
        }
    }

    /// Creates a service data record for `uuid` holding `additional_service_data`.
    pub fn new(uuid: &BleUuid, additional_service_data: &Vec<u8>) -> (r: Self)
        requires
            additional_service_data@.len() + 3 <= 255,
        ensures
            r.length == 3 + additional_service_data@.len(),
            r.uuid == *uuid,
            r.additional_service_data@ == additional_service_data@,
    {
        let mut copy: Vec<u8> = Vec::new();
        push_all(&mut copy, additional_service_data);
        proof {
            assert(copy@ =~= additional_service_data@);
        }
        Self {
            length: 3 + additional_service_data.len() as u8,
            uuid: *uuid,
            additional_service_data: copy,
        }
    }

    /// Decodes the record that starts at `offset` in `data`.
    pub fn from_with_offset(data: &Vec<u8>, offset: usize) -> (r: Result<Self, DecodeError>)
        ensures
            Self::decodes(record_at(data@, offset as int), r),
    {
        match decode_service_data(data, offset, 2, SERVICE_DATA_16BIT_UUID_DATA_TYPE) {
            Ok((length, uuid, additional_service_data)) => Ok(
                Self { length, uuid, additional_service_data },
            ),
            Err(e) => Err(e),
        }
    }

    /// Decodes the record at the start of `data`.
    pub fn try_from(data: &Vec<u8>) -> (r: Result<Self, DecodeError>)
        ensures
            Self::decodes(data@, r),
    {
        proof {
            lemma_record_at_zero(data@);
        }
        Self::from_with_offset(data, 0)
    }

    /// Encodes the record: length byte (3 + the data's length), tag, the
    /// 2-byte short form of the UUID, the data.
    /// The data must fit the one-byte length.
    pub fn encode(&self) -> (r: Vec<u8>)
        requires
            self.additional_service_data@.len() + 3 <= 255,
        ensures
            r@ == self.wire(),
            r@.len() == r@[0] + 1,
            r@[1] == SERVICE_DATA_16BIT_UUID_DATA_TYPE,
    {
        let mut data: Vec<u8> = Vec::new();
        data.push(3 + self.additional_service_data.len() as u8);
        data.push(SERVICE_DATA_16BIT_UUID_DATA_TYPE);
        self.uuid.push_short(&mut data, 2);
        push_all(&mut data, &self.additional_service_data);
        proof {
            assert(data@ =~= self.wire());
        }
        data
    }

    /// The type tag, `0x16`.
    pub fn data_type() -> (r: u8)
        ensures
            r == SERVICE_DATA_16BIT_UUID_DATA_TYPE,
    {
        SERVICE_DATA_16BIT_UUID_DATA_TYPE
    }
}

/// Whether `data_type` is the tag of [`ServiceData16BitUUID`].
pub fn is_service_data_16bit_uuid(data_type: u8) -> (r: bool)
    ensures
        r == (data_type == SERVICE_DATA_16BIT_UUID_DATA_TYPE),
{
    data_type == SERVICE_DATA_16BIT_UUID_DATA_TYPE
}

/// Decoding the encoding of well-formed service data gives it back.
pub proof fn lemma_service_data_16bit_uuid_decode_encode(x: ServiceData16BitUUID, r: Result<ServiceData16BitUUID, DecodeError>)
    requires
        x.wf(),
        ServiceData16BitUUID::decodes(x.wire(), r),
    ensures
        r matches Ok(v) && v.length == x.length && v.uuid == x.uuid
            && v.additional_service_data@ == x.additional_service_data@,
{
    lemma_service_data_decode_wire(x.length, SERVICE_DATA_16BIT_UUID_DATA_TYPE, x.uuid.bytes@, 2, x.additional_service_data@);
    if let Ok(v) = r {
        lemma_uuid_ext_equal(v.uuid, x.uuid);
    }
}

/// Encoding the decoding of a service data record gives the record back, and
/// the decoded value is well formed.
pub proof fn lemma_service_data_16bit_uuid_encode_decode(s: Seq<u8>, r: Result<ServiceData16BitUUID, DecodeError>)
    requires
        s.len() == s[0] + 1,
        s[1] == SERVICE_DATA_16BIT_UUID_DATA_TYPE,
        ServiceData16BitUUID::decodes(s, r),
        r is Ok,
    ensures
        r matches Ok(v) && v.wire() == s && v.wf(),
{
    if let Ok(v) = r {
        lemma_service_data_wire_decode(s, SERVICE_DATA_16BIT_UUID_DATA_TYPE, 2, v.uuid.bytes@, v.additional_service_data@);
    }
}

/// A record of 4 bytes, the fewest the layout allows, decodes; one byte
/// fewer is too short, and the error says how many bytes there were.
pub proof fn lemma_service_data_16bit_uuid_size_boundary(s: Seq<u8>, r: Result<ServiceData16BitUUID, DecodeError>)
    requires
        ServiceData16BitUUID::decodes(s, r),
    ensures
        s.len() == 3 ==> r == Err::<ServiceData16BitUUID, DecodeError>(DecodeError::BufferTooShort(3)),
        (s.len() == 4 && s[0] == 3) ==> r is Ok,
{
}

} // verus!
