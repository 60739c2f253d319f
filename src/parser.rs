//! The registry of decoders by type tag, and the scanner that splits a buffer
//! into records.

use crate::advertising_interval::{is_advertising_interval, AdvertisingInterval, ADVERTISING_INTERVAL_DATA_TYPE};
use crate::advertising_interval_long::{
    is_advertising_interval_long, AdvertisingIntervalLong, ADVERTISING_INTERVAL_LONG_DATA_TYPE,
};
use crate::appearance::{is_appearance, Appearance, APPEARANCE_DATA_TYPE};
use crate::big_info::{is_big_info, BigInfo, BIG_INFO_DATA_TYPE};
use crate::broadcast_code::{is_broadcast_code, BroadcastCode, BROADCAST_CODE_DATA_TYPE};
use crate::class_of_device::{is_class_of_device, ClassOfDevice, CLASS_OF_DEVICE_DATA_TYPE};
use crate::complete_list_of_128bit_service_uuids::{
    is_complete_list_of_128bit_service_uuids, CompleteListOf128BitServiceUuids,
    COMPLETE_LIST_OF_128BIT_SERVICE_UUIDS_DATA_TYPE,
};
use crate::complete_list_of_16bit_service_uuids::{
    is_complete_list_of_16bit_service_uuids, CompleteListOf16BitServiceUuids,
    COMPLETE_LIST_OF_16BIT_SERVICE_UUIDS_DATA_TYPE,
};
use crate::error::DecodeError;
use crate::le_role::{is_le_role, LeRole, LE_ROLE_DATA_TYPE};
use crate::list_of_32bit_service_solicitation_uuids::{
    is_list_of_32bit_service_solicitation_uuids, ListOf32BitServiceSolicitationUUIDs,
    LIST_OF_32BIT_SERVICE_SOLICITATION_UUIDS_DATA_TYPE,
};
use crate::record::copy_range;
use crate::secure_simple_pairing_hash_c256::{
    is_secure_simple_pairing_hash_c256, SecureSimplePairingHashC256,
    SECURE_SIMPLE_PAIRING_HASH_C256_DATA_TYPE,
};
use crate::secure_simple_pairing_randomizer_r192::{
    is_secure_simple_pairing_randomizer_r192, SecureSimplePairingRandomizerR192,
    SECURE_SIMPLE_PAIRING_RANDOMIZER_R192_DATA_TYPE,
};
use crate::secure_simple_pairing_randomizer_r256::{
    is_secure_simple_pairing_randomizer_r256, SecureSimplePairingRandomizerR256,
    SECURE_SIMPLE_PAIRING_RANDOMIZER_R256_DATA_TYPE,
};
use crate::service_data_16bit_uuid::{
    is_service_data_16bit_uuid, ServiceData16BitUUID, SERVICE_DATA_16BIT_UUID_DATA_TYPE,
};
use crate::service_data_32bit_uuid::{
    is_service_data_32bit_uuid, ServiceData32BitUUID, SERVICE_DATA_32BIT_UUID_DATA_TYPE,
};
use vstd::prelude::*;

verus! {

/// The outcome of decoding one record: the decoder's result for a registered
/// tag, or an error before any decoder ran.
#[derive(Debug)]
pub enum DataTypeParseResult {
    /// Result of [`AdvertisingInterval::try_from`].
    AdvertisingIntervalResult(Result<AdvertisingInterval, DecodeError>),
    /// Result of [`AdvertisingIntervalLong::try_from`].
    AdvertisingIntervalLongResult(Result<AdvertisingIntervalLong, DecodeError>),
    /// Result of [`Appearance::try_from`].
    AppearanceResult(Result<Appearance, DecodeError>),
    /// Result of [`BigInfo::try_from`].
    BigInfoResult(Result<BigInfo, DecodeError>),
    /// Result of [`BroadcastCode::try_from`].
    BroadcastCodeResult(Result<BroadcastCode, DecodeError>),
    /// Result of [`ClassOfDevice::try_from`].
    ClassOfDeviceResult(Result<ClassOfDevice, DecodeError>),
    /// Result of [`CompleteListOf16BitServiceUuids::try_from`].
    CompleteListOf16BitServiceUuidsResult(Result<CompleteListOf16BitServiceUuids, DecodeError>),
    /// Result of [`CompleteListOf128BitServiceUuids::try_from`].
    CompleteListOf128BitServiceUuidsResult(Result<CompleteListOf128BitServiceUuids, DecodeError>),
    /// Result of [`LeRole::try_from`].
    LeRoleResult(Result<LeRole, DecodeError>),
    /// Result of [`ListOf32BitServiceSolicitationUUIDs::try_from`].
    ListOf32BitServiceSolicitationUUIDsResult(Result<ListOf32BitServiceSolicitationUUIDs, DecodeError>),
    /// Result of [`SecureSimplePairingHashC256::try_from`].
    SecureSimplePairingHashC256Result(Result<SecureSimplePairingHashC256, DecodeError>),
    /// Result of [`SecureSimplePairingRandomizerR192::try_from`].
    SecureSimplePairingRandomizerR192Result(Result<SecureSimplePairingRandomizerR192, DecodeError>),
    /// Result of [`SecureSimplePairingRandomizerR256::try_from`].
    SecureSimplePairingRandomizerR256Result(Result<SecureSimplePairingRandomizerR256, DecodeError>),
    /// Result of [`ServiceData16BitUUID::try_from`].
    ServiceData16BitUUIDResult(Result<ServiceData16BitUUID, DecodeError>),
    /// Result of [`ServiceData32BitUUID::try_from`].
    ServiceData32BitUUIDResult(Result<ServiceData32BitUUID, DecodeError>),
    /// The record is too short to hold a tag, or no decoder is registered for its tag.
    DataTypeParseErr(DecodeError),
}

/// `r` is the outcome of decoding the record `s`: a record of fewer than two
/// bytes has no tag; otherwise the decoder registered for the tag runs, and an
/// unregistered tag is reported with its value.
pub open spec fn dispatched(s: Seq<u8>, r: DataTypeParseResult) -> bool {
    if s.len() < 2 {
        r == DataTypeParseResult::DataTypeParseErr(DecodeError::BufferTooShort(s.len() as usize))
    } else {
        let tag = s[1];
        if tag == ADVERTISING_INTERVAL_DATA_TYPE {
            r == DataTypeParseResult::AdvertisingIntervalResult(AdvertisingInterval::decoded(s))
        } else if tag == ADVERTISING_INTERVAL_LONG_DATA_TYPE {
            r == DataTypeParseResult::AdvertisingIntervalLongResult(
                AdvertisingIntervalLong::decoded(s),
            )
        } else if tag == APPEARANCE_DATA_TYPE {
            r == DataTypeParseResult::AppearanceResult(Appearance::decoded(s))
        } else if tag == BIG_INFO_DATA_TYPE {
            r matches DataTypeParseResult::BigInfoResult(x) && BigInfo::decodes(s, x)
        } else if tag == BROADCAST_CODE_DATA_TYPE {
            r matches DataTypeParseResult::BroadcastCodeResult(x) && BroadcastCode::decodes(s, x)
        } else if tag == CLASS_OF_DEVICE_DATA_TYPE {
            r == DataTypeParseResult::ClassOfDeviceResult(ClassOfDevice::decoded(s))
        } else if tag == COMPLETE_LIST_OF_16BIT_SERVICE_UUIDS_DATA_TYPE {
            r matches DataTypeParseResult::CompleteListOf16BitServiceUuidsResult(x)
                && CompleteListOf16BitServiceUuids::decodes(s, x)
        } else if tag == COMPLETE_LIST_OF_128BIT_SERVICE_UUIDS_DATA_TYPE {
            r matches DataTypeParseResult::CompleteListOf128BitServiceUuidsResult(x)
                && CompleteListOf128BitServiceUuids::decodes(s, x)
        } else if tag == LE_ROLE_DATA_TYPE {
            r == DataTypeParseResult::LeRoleResult(LeRole::decoded(s))
        } else if tag == LIST_OF_32BIT_SERVICE_SOLICITATION_UUIDS_DATA_TYPE {
            r matches DataTypeParseResult::ListOf32BitServiceSolicitationUUIDsResult(x)
                && ListOf32BitServiceSolicitationUUIDs::decodes(s, x)
        } else if tag == SECURE_SIMPLE_PAIRING_HASH_C256_DATA_TYPE {
            r == DataTypeParseResult::SecureSimplePairingHashC256Result(
                SecureSimplePairingHashC256::decoded(s),
            )
        } else if tag == SECURE_SIMPLE_PAIRING_RANDOMIZER_R192_DATA_TYPE {
            r == DataTypeParseResult::SecureSimplePairingRandomizerR192Result(
                SecureSimplePairingRandomizerR192::decoded(s),
            )
        } else if tag == SECURE_SIMPLE_PAIRING_RANDOMIZER_R256_DATA_TYPE {
            r == DataTypeParseResult::SecureSimplePairingRandomizerR256Result(
                SecureSimplePairingRandomizerR256::decoded(s),
            )
        } else if tag == SERVICE_DATA_16BIT_UUID_DATA_TYPE {
            r matches DataTypeParseResult::ServiceData16BitUUIDResult(x)
                && ServiceData16BitUUID::decodes(s, x)
        } else if tag == SERVICE_DATA_32BIT_UUID_DATA_TYPE {
            r matches DataTypeParseResult::ServiceData32BitUUIDResult(x)
                && ServiceData32BitUUID::decodes(s, x)
        } else {
            r == DataTypeParseResult::DataTypeParseErr(DecodeError::UnknownType(tag))
        }
    }
}

impl DataTypeParseResult {
    /// Decodes the record `value` with the decoder registered for its tag.
    pub fn from(value: &Vec<u8>) -> (r: Self)
        ensures
            dispatched(value@, r),
    {
        if value.len() < 2 {
            return DataTypeParseResult::DataTypeParseErr(DecodeError::BufferTooShort(value.len()));
        }
        let tag = value[1];
        if is_advertising_interval(tag) {
            DataTypeParseResult::AdvertisingIntervalResult(AdvertisingInterval::try_from(value))
        } else if is_advertising_interval_long(tag) {
            DataTypeParseResult::AdvertisingIntervalLongResult(
                AdvertisingIntervalLong::try_from(value),
            )
        } else if is_appearance(tag) {
            DataTypeParseResult::AppearanceResult(Appearance::try_from(value))
        } else if is_big_info(tag) {
            DataTypeParseResult::BigInfoResult(BigInfo::try_from(value))
        } else if is_broadcast_code(tag) {
            DataTypeParseResult::BroadcastCodeResult(BroadcastCode::try_from(value))
        } else if is_class_of_device(tag) {
            DataTypeParseResult::ClassOfDeviceResult(ClassOfDevice::try_from(value))
        } else if is_complete_list_of_16bit_service_uuids(tag) {
            DataTypeParseResult::CompleteListOf16BitServiceUuidsResult(
                CompleteListOf16BitServiceUuids::try_from(value),
            )
        } else if is_complete_list_of_128bit_service_uuids(tag) {
            DataTypeParseResult::CompleteListOf128BitServiceUuidsResult(
                CompleteListOf128BitServiceUuids::try_from(value),
            )
        } else if is_le_role(tag) {
            DataTypeParseResult::LeRoleResult(LeRole::try_from(value))
        } else if is_list_of_32bit_service_solicitation_uuids(tag) {
            DataTypeParseResult::ListOf32BitServiceSolicitationUUIDsResult(
                ListOf32BitServiceSolicitationUUIDs::try_from(value),
            )
        } else if is_secure_simple_pairing_hash_c256(tag) {
            DataTypeParseResult::SecureSimplePairingHashC256Result(
                SecureSimplePairingHashC256::try_from(value),
            )
        } else if is_secure_simple_pairing_randomizer_r192(tag) {
            DataTypeParseResult::SecureSimplePairingRandomizerR192Result(
                SecureSimplePairingRandomizerR192::try_from(value),
            )
        } else if is_secure_simple_pairing_randomizer_r256(tag) {
            DataTypeParseResult::SecureSimplePairingRandomizerR256Result(
                SecureSimplePairingRandomizerR256::try_from(value),
            )
        } else if is_service_data_16bit_uuid(tag) {
            DataTypeParseResult::ServiceData16BitUUIDResult(ServiceData16BitUUID::try_from(value))
        } else if is_service_data_32bit_uuid(tag) {
            DataTypeParseResult::ServiceData32BitUUIDResult(ServiceData32BitUUID::try_from(value))
        } else {
            DataTypeParseResult::DataTypeParseErr(DecodeError::UnknownType(tag))
        }
    }

    /// The outcome is that of the advertising interval decoder.
    pub fn is_advertising_interval(&self) -> (r: bool)
        ensures
            r == (self is AdvertisingIntervalResult),
    {
        matches!(self, DataTypeParseResult::AdvertisingIntervalResult(_))
    }

    /// The outcome is that of the long advertising interval decoder.
    pub fn is_advertising_interval_long(&self) -> (r: bool)
        ensures
            r == (self is AdvertisingIntervalLongResult),
    {
        matches!(self, DataTypeParseResult::AdvertisingIntervalLongResult(_))
    }

    /// The outcome is that of the appearance decoder.
    pub fn is_appearance(&self) -> (r: bool)
        ensures
            r == (self is AppearanceResult),
    {
        matches!(self, DataTypeParseResult::AppearanceResult(_))
    }

    /// The outcome is that of the BIGInfo decoder.
    pub fn is_big_info(&self) -> (r: bool)
        ensures
            r == (self is BigInfoResult),
    {
        matches!(self, DataTypeParseResult::BigInfoResult(_))
    }

    /// The outcome is that of the broadcast code decoder.
    pub fn is_broadcast_code(&self) -> (r: bool)
        ensures
            r == (self is BroadcastCodeResult),
    {
        matches!(self, DataTypeParseResult::BroadcastCodeResult(_))
    }
}

/// A record as the scanner found it.
#[derive(Debug)]
pub struct RawRecord {
    /// Where the record starts in the buffer.
    pub position: usize,
    /// The record's bytes, length byte first. Fewer than the declared length
    /// asks for where the buffer ends inside the record.
    pub bytes: Vec<u8>,
}

/// The records of `buf` from `pos` on, as (position, bytes): each record
/// takes its length byte and the declared length after it; a length byte of 0
/// makes a record of that byte alone; a record that runs past the end takes
/// what is left and ends the scan.
pub open spec fn scan_from(buf: Seq<u8>, pos: nat) -> Seq<(nat, Seq<u8>)>
    decreases buf.len() - pos,
{
    if pos >= buf.len() {
        Seq::empty()
    } else {
        let end = pos + 1 + buf[pos as int];
        if end > buf.len() {
            seq![(pos, buf.subrange(pos as int, buf.len() as int))]
        } else {
            seq![(pos, buf.subrange(pos as int, end))] + scan_from(buf, end as nat)
        }
    }
}

/// The records of `buf`, in order.
pub open spec fn scanned(buf: Seq<u8>) -> Seq<(nat, Seq<u8>)> {
    scan_from(buf, 0)
}

/// The (position, bytes) pairs of scanned records.
pub open spec fn raw_view(rs: Seq<RawRecord>) -> Seq<(nat, Seq<u8>)> {
    Seq::new(rs.len(), |i: int| (rs[i].position as nat, rs[i].bytes@))
}

/// Splits `buffer` into its records, in order. Never fails: a zero length
/// byte gives a one-byte record, and a record cut short by the end of the
/// buffer is the last one.
pub fn scan(buffer: &Vec<u8>) -> (r: Vec<RawRecord>)
    ensures
        raw_view(r@) == scanned(buffer@),
{
    let len = buffer.len();
    let mut out: Vec<RawRecord> = Vec::new();
    let mut pos: usize = 0;
    proof {
        assert(raw_view(out@) + scan_from(buffer@, 0) =~= scanned(buffer@));
    }
    while pos < len
        invariant
            len == buffer@.len(),
            pos <= len,
            raw_view(out@) + scan_from(buffer@, pos as nat) == scanned(buffer@),
        decreases len - pos,
    {
        let ghost before = out@;
        let length = buffer[pos] as usize;
        if length + 1 > len - pos {
            let bytes = copy_range(buffer, pos, len);
            out.push(RawRecord { position: pos, bytes });
            proof {
                assert(raw_view(out@) =~= raw_view(before) + scan_from(buffer@, pos as nat));
                assert(scan_from(buffer@, len as nat) =~= Seq::<(nat, Seq<u8>)>::empty());
                assert(raw_view(out@) + scan_from(buffer@, len as nat) =~= raw_view(out@));
            }
            pos = len;
        } else {
            let end = pos + 1 + length;
            let bytes = copy_range(buffer, pos, end);
            out.push(RawRecord { position: pos, bytes });
            proof {
                assert(raw_view(out@) + scan_from(buffer@, end as nat) =~= raw_view(before)
                    + scan_from(buffer@, pos as nat));
            }
            pos = end;
        }
    }
    out
}

/// `r` is the outcome for the scanned record `b`: the dispatched outcome of a
/// whole record, or a size error for a record that the buffer cuts short.
pub open spec fn scanned_outcome(b: Seq<u8>, r: DataTypeParseResult) -> bool {
    if b.len() == b[0] + 1 {
        dispatched(b, r)
    } else {
        r == DataTypeParseResult::DataTypeParseErr(DecodeError::BufferTooShort(b.len() as usize))
    }
}

/// The outcomes of decoding several records, index for index.
#[derive(Debug)]
pub struct DataTypeParseResults {
    /// One outcome per record, in the order of the records.
    pub results: Vec<DataTypeParseResult>,
}

impl DataTypeParseResults {
    /// Decodes each record of `value`, keeping order and count.
    pub fn from(value: &Vec<Vec<u8>>) -> (r: Self)
        ensures
            r.results@.len() == value@.len(),
            forall|i: int| 0 <= i < value@.len() ==> dispatched(value@[i]@, #[trigger] r.results@[i]),
    {
        let mut results: Vec<DataTypeParseResult> = Vec::new();
        let mut i: usize = 0;
        while i < value.len()
            invariant
                i <= value@.len(),
                results@.len() == i,
                forall|j: int| 0 <= j < i ==> dispatched(value@[j]@, #[trigger] results@[j]),
            decreases value@.len() - i,
        {
            let outcome = DataTypeParseResult::from(&value[i]);
            results.push(outcome);
            i = i + 1;
        }
        Self { results }
    }

    /// Scans `value` into records and decodes each, keeping order and count.
    pub fn from_buffer(value: &Vec<u8>) -> (r: Self)
        ensures
            r.results@.len() == scanned(value@).len(),
            forall|i: int|
                0 <= i < scanned(value@).len() ==> scanned_outcome(
                    scanned(value@)[i].1,
                    #[trigger] r.results@[i],
                ),
    {
        let records = scan(value);
        let ghost items = scanned(value@);
        let mut results: Vec<DataTypeParseResult> = Vec::new();
        let mut i: usize = 0;
        while i < records.len()
            invariant
                raw_view(records@) == items,
                i <= records@.len(),
                results@.len() == i,
                forall|j: int| 0 <= j < i ==> scanned_outcome(items[j].1, #[trigger] results@[j]),
            decreases records@.len() - i,
        {
            let bytes = &records[i].bytes;
            proof {
                assert(items[i as int].1 == bytes@);
            }
            let outcome = if bytes.len() >= 1 && bytes.len() == bytes[0] as usize + 1 {
                DataTypeParseResult::from(bytes)
            } else {
                DataTypeParseResult::DataTypeParseErr(DecodeError::BufferTooShort(bytes.len()))
            };
            results.push(outcome);
            i = i + 1;
        }
        Self { results }
    }
}

} // verus!
