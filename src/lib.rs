//! Bluetooth Low Energy advertising data (AD / EIR) records: scanning a buffer
//! into length-prefixed, type-tagged records, and decoding and encoding the
//! typed structures they carry.
//!
//! Every decoder checks sizes before it reads a field and reports failures as
//! [`DecodeError`] values; every encoder writes `[length][tag][payload]`. Each
//! type module states, and proves, that decoding an encoding gives the value
//! back and that encoding a decoded record gives the record back.

pub mod advertising_interval;
pub mod advertising_interval_long;
pub mod appearance;
pub mod big_info;
pub mod ble_uuid;
pub mod broadcast_code;
pub mod class_of_device;
pub mod complete_list_of_128bit_service_uuids;
pub mod complete_list_of_16bit_service_uuids;
pub mod error;
pub mod le_role;
pub mod list_of_32bit_service_solicitation_uuids;
pub mod parser;
pub mod record;
pub mod secure_simple_pairing_hash_c256;
pub mod secure_simple_pairing_randomizer_r192;
pub mod secure_simple_pairing_randomizer_r256;
pub mod service_data;
pub mod service_data_16bit_uuid;
pub mod service_data_32bit_uuid;
pub mod uuid_list;
pub mod wire;

pub use advertising_interval::{is_advertising_interval, AdvertisingInterval};
pub use advertising_interval_long::{is_advertising_interval_long, AdvertisingIntervalLong};
pub use appearance::{is_appearance, Appearance};
pub use big_info::{is_big_info, BigInfo};
pub use ble_uuid::BleUuid;
pub use broadcast_code::{is_broadcast_code, BroadcastCode};
pub use class_of_device::{
    is_class_of_device, ClassOfDevice, CLASS_OF_DEVICE_MAJOR_DEVICE_CLASS_MASK,
    CLASS_OF_DEVICE_MAJOR_SERVICE_CLASSES_MASK, CLASS_OF_DEVICE_MINOR_DEVICE_CLASS_MASK,
};
pub use complete_list_of_128bit_service_uuids::{
    is_complete_list_of_128bit_service_uuids, CompleteListOf128BitServiceUuids,
};
pub use complete_list_of_16bit_service_uuids::{
    is_complete_list_of_16bit_service_uuids, CompleteListOf16BitServiceUuids,
};
pub use error::DecodeError;
pub use le_role::{
    is_le_role, LeRole, CENTRAL_ROLE_PREFERRED_FOR_CONNECTION_STABLISHMENT,
    ONLY_CENTRAL_ROLE_SUPPORTED, ONLY_PERIPHERAL_ROLE_SUPPORTED,
    PERIPHERAL_ROLE_PREFERRED_FOR_CONNECTION_STABLISHMENT,
};
pub use list_of_32bit_service_solicitation_uuids::{
    is_list_of_32bit_service_solicitation_uuids, ListOf32BitServiceSolicitationUUIDs,
};
pub use parser::{scan, DataTypeParseResult, DataTypeParseResults, RawRecord};
pub use secure_simple_pairing_hash_c256::{
    is_secure_simple_pairing_hash_c256, SecureSimplePairingHashC256,
};
pub use secure_simple_pairing_randomizer_r192::{
    is_secure_simple_pairing_randomizer_r192, SecureSimplePairingRandomizerR192,
};
pub use secure_simple_pairing_randomizer_r256::{
    is_secure_simple_pairing_randomizer_r256, SecureSimplePairingRandomizerR256,
};
pub use service_data_16bit_uuid::{is_service_data_16bit_uuid, ServiceData16BitUUID};
pub use service_data_32bit_uuid::{is_service_data_32bit_uuid, ServiceData32BitUUID};
