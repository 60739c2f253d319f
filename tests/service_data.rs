use ble_data_struct::{
    is_service_data_16bit_uuid, is_service_data_32bit_uuid, BleUuid, DecodeError,
    ServiceData16BitUUID, ServiceData32BitUUID,
};
use uuid::Uuid;

fn base_uuid() -> Uuid {
    Uuid::parse_str("00000000-0000-1000-8000-00805F9B34FB").unwrap()
}

fn ble(u: Uuid) -> BleUuid {
    BleUuid::from_bytes(u.into_bytes())
}

fn uuid16(uuid_bytes: &Vec<u8>) -> BleUuid {
    let base = base_uuid();
    let (d1, d2, d3, d4) = base.as_fields();
    ble(Uuid::from_fields(
        d1 | ((uuid_bytes[0] as u32) << 0) | ((uuid_bytes[1] as u32) << 8),
        d2,
        d3,
        d4,
    ))
}

fn uuid32(uuid_bytes: &Vec<u8>) -> BleUuid {
    let mut uuid_bytes_le: Vec<u8> = uuid_bytes.to_vec();
    uuid_bytes_le.append(&mut base_uuid().to_bytes_le()[4..].to_vec());
    ble(Uuid::from_bytes_le(uuid_bytes_le.try_into().unwrap()))
}

fn record(length: u8, tag: u8, uuid_bytes: &Vec<u8>, additional: &Vec<u8>) -> Vec<u8> {
    let mut data: Vec<u8> = Vec::new();
    data.push(length);
    data.push(tag);
    data.append(&mut uuid_bytes.clone());
    data.append(&mut additional.clone());
    data
}

#[test]
fn service_data_16bit_uuid_test_new() {
    let uuid = ble(Uuid::parse_str("00000201-0000-1000-8000-00805F9B34FB").unwrap());
    let additional_service_data = [0x03u8].to_vec();
    let result = ServiceData16BitUUID::new(&uuid, &additional_service_data);
    assert_eq!(additional_service_data.len() as u8 + 3, result.length);
    assert_eq!(uuid, result.uuid);
    assert_eq!(additional_service_data, result.additional_service_data);
}

#[test]
fn service_data_16bit_uuid_test_from_with_offset() {
    let uuid_bytes: Vec<u8> = [0x01u8, 0x02u8].to_vec();
    let uuid = uuid16(&uuid_bytes);
    let additional_service_data = [0x03u8].to_vec();
    let length = additional_service_data.len() as u8 + 3;
    let data = record(length, ServiceData16BitUUID::data_type(), &uuid_bytes, &additional_service_data);

    let result = ServiceData16BitUUID::from_with_offset(&data, 0).unwrap();
    assert_eq!(length, result.length);
    assert_eq!(uuid, result.uuid);
    assert_eq!(additional_service_data, result.additional_service_data);

    let mut data: Vec<u8> = vec![0];
    data.append(&mut record(length, ServiceData16BitUUID::data_type(), &uuid_bytes, &additional_service_data));
    let result = ServiceData16BitUUID::from_with_offset(&data, 1).unwrap();
    assert_eq!(length, result.length);
    assert_eq!(uuid, result.uuid);
    assert_eq!(additional_service_data, result.additional_service_data);
}

#[test]
fn service_data_16bit_uuid_test_from() {
    let uuid_bytes: Vec<u8> = [0x01u8, 0x02u8].to_vec();
    let uuid = uuid16(&uuid_bytes);
    let additional_service_data = [0x03u8].to_vec();
    let length = additional_service_data.len() as u8 + 3;
    let data = record(length, ServiceData16BitUUID::data_type(), &uuid_bytes, &additional_service_data);
    let result = ServiceData16BitUUID::try_from(&data).unwrap();
    assert_eq!(length, result.length);
    assert_eq!(uuid, result.uuid);
    assert_eq!(additional_service_data, result.additional_service_data);
}

#[test]
fn service_data_16bit_uuid_test_into() {
    let uuid_bytes: Vec<u8> = [0x01u8, 0x02u8].to_vec();
    let uuid = uuid16(&uuid_bytes);
    let additional_service_data = [0x03u8].to_vec();
    let result1 = ServiceData16BitUUID::new(&uuid, &additional_service_data);
    let length = additional_service_data.len() as u8 + 3;
    let data = record(length, ServiceData16BitUUID::data_type(), &uuid_bytes, &additional_service_data);

    let into_data: Vec<u8> = result1.encode();
    assert_eq!(data, into_data);

    let result2 = ServiceData16BitUUID::try_from(&data).unwrap();
    let into_data: Vec<u8> = result2.encode();
    assert_eq!(data, into_data);
}

#[test]
fn service_data_16bit_uuid_test_data_type() {
    assert_eq!(0x16, ServiceData16BitUUID::data_type());
}

#[test]
fn test_is_service_data_16bit_uuid() {
    assert!(is_service_data_16bit_uuid(0x16));
    assert!(!is_service_data_16bit_uuid(0x00));
}

#[test]
fn service_data_32bit_uuid_test_new() {
    let uuid = ble(Uuid::parse_str("04030201-0000-1000-8000-00805F9B34FB").unwrap());
    let additional_service_data = [0x05u8].to_vec();
    let result = ServiceData32BitUUID::new(&uuid, &additional_service_data);
    assert_eq!(additional_service_data.len() as u8 + 5, result.length);
    assert_eq!(uuid, result.uuid);
    assert_eq!(additional_service_data, result.additional_service_data);
}

#[test]
fn service_data_32bit_uuid_test_from_with_offset() {
    let uuid_bytes: Vec<u8> = [0x01u8, 0x02u8, 0x03u8, 0x04u8].to_vec();
    let uuid = uuid32(&uuid_bytes);
    let additional_service_data = [0x05u8].to_vec();
    let length = additional_service_data.len() as u8 + 5;
    let data = record(length, ServiceData32BitUUID::data_type(), &uuid_bytes, &additional_service_data);

    let result = ServiceData32BitUUID::from_with_offset(&data, 0).unwrap();
    assert_eq!(length, result.length);
    assert_eq!(uuid, result.uuid);
    assert_eq!(additional_service_data, result.additional_service_data);

    let mut data: Vec<u8> = vec![0];
    data.append(&mut record(length, ServiceData32BitUUID::data_type(), &uuid_bytes, &additional_service_data));
    let result = ServiceData32BitUUID::from_with_offset(&data, 1).unwrap();
    assert_eq!(length, result.length);
    assert_eq!(uuid, result.uuid);
    assert_eq!(additional_service_data, result.additional_service_data);
}

#[test]
fn service_data_32bit_uuid_test_from() {
    let uuid_bytes: Vec<u8> = [0x01u8, 0x02u8, 0x03u8, 0x04u8].to_vec();
    let uuid = uuid32(&uuid_bytes);
    let additional_service_data = [0x05u8].to_vec();
    let length = additional_service_data.len() as u8 + 5;
    let data = record(length, ServiceData32BitUUID::data_type(), &uuid_bytes, &additional_service_data);
    let result = ServiceData32BitUUID::try_from(&data).unwrap();
    assert_eq!(length, result.length);
    assert_eq!(uuid, result.uuid);
    assert_eq!(additional_service_data, result.additional_service_data);
}

#[test]
fn service_data_32bit_uuid_test_into() {
    let uuid_bytes: Vec<u8> = [0x01u8, 0x02u8, 0x03u8, 0x04u8].to_vec();
    let uuid = uuid32(&uuid_bytes);
    let additional_service_data = [0x05u8].to_vec();
    let result1 = ServiceData32BitUUID::new(&uuid, &additional_service_data);
    let length = additional_service_data.len() as u8 + 5;
    let data = record(length, ServiceData32BitUUID::data_type(), &uuid_bytes, &additional_service_data);

    let into_data: Vec<u8> = result1.encode();
    assert_eq!(data, into_data);

    let result2 = ServiceData32BitUUID::try_from(&data).unwrap();
    let into_data: Vec<u8> = result2.encode();
    assert_eq!(data, into_data);
}

#[test]
fn service_data_32bit_uuid_test_data_type() {
    assert_eq!(0x20, ServiceData32BitUUID::data_type());
}

#[test]
fn test_is_service_data_32bit_uuid() {
    assert!(is_service_data_32bit_uuid(0x20));
    assert!(!is_service_data_32bit_uuid(0x00));
}

#[test]
fn service_data_16bit_boundary_at_four_bytes() {
    let three = vec![2u8, 0x16, 0x0f];
    assert_eq!(DecodeError::BufferTooShort(3), ServiceData16BitUUID::try_from(&three).unwrap_err());
    let four = vec![3u8, 0x16, 0x0f, 0x18];
    let result = ServiceData16BitUUID::try_from(&four).unwrap();
    assert_eq!(ble(Uuid::parse_str("0000180f-0000-1000-8000-00805F9B34FB").unwrap()), result.uuid);
    assert!(result.additional_service_data.is_empty());
}

#[test]
fn service_data_32bit_boundary_at_six_bytes() {
    let five = vec![4u8, 0x20, 1, 2, 3];
    assert_eq!(DecodeError::BufferTooShort(5), ServiceData32BitUUID::try_from(&five).unwrap_err());
    let six = vec![5u8, 0x20, 1, 2, 3, 4];
    assert!(ServiceData32BitUUID::try_from(&six).is_ok());
}
