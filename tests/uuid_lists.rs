use ble_data_struct::{
    is_complete_list_of_128bit_service_uuids, is_complete_list_of_16bit_service_uuids,
    is_list_of_32bit_service_solicitation_uuids, BleUuid, CompleteListOf128BitServiceUuids,
    CompleteListOf16BitServiceUuids, DecodeError, ListOf32BitServiceSolicitationUUIDs,
};
use uuid::Uuid;

fn base_uuid() -> Uuid {
    Uuid::parse_str("00000000-0000-1000-8000-00805F9B34FB").unwrap()
}

fn ble(u: Uuid) -> BleUuid {
    BleUuid::from_bytes(u.into_bytes())
}

#[test]
fn complete_list_of_128bit_service_uuids_test_new() {
    let uuids: Vec<BleUuid> = vec![
        ble(Uuid::parse_str("00000001-0000-1000-8000-00805F9B34FB").unwrap()),
        ble(Uuid::parse_str("00000002-0000-1000-8000-00805F9B34FB").unwrap()),
    ];
    let result = CompleteListOf128BitServiceUuids::new(&uuids);
    assert_eq!(uuids.len() as u8 * 16 + 1, result.length);
    assert_eq!(uuids, result.uuids);
}

#[test]
fn complete_list_of_128bit_service_uuids_test_try_from() {
    let raw = [
        Uuid::parse_str("00000001-0000-1000-8000-00805F9B34FB").unwrap(),
        Uuid::parse_str("00000002-0000-1000-8000-00805F9B34FB").unwrap(),
    ];
    let uuids: Vec<BleUuid> = raw.iter().map(|u| ble(*u)).collect();
    let mut uuid_bytes: Vec<u8> = Vec::new();
    uuid_bytes.append(&mut raw[0].as_u128().to_le_bytes().to_vec());
    uuid_bytes.append(&mut raw[1].as_u128().to_le_bytes().to_vec());

    let length = uuid_bytes.len() as u8 + 1;
    let mut data: Vec<u8> = Vec::new();
    data.push(length);
    data.push(CompleteListOf128BitServiceUuids::data_type());
    data.append(&mut uuid_bytes.clone());

    let result = CompleteListOf128BitServiceUuids::try_from(&data);
    assert!(result.is_ok());
    let data_type = result.unwrap();
    assert_eq!(length, data_type.length);
    assert_eq!(uuids, data_type.uuids);

    let mut data: Vec<u8> = vec![0u8; 16];
    data[0] = data.len() as u8 - 1;
    let result = CompleteListOf128BitServiceUuids::try_from(&data);
    assert!(result.is_err());
    assert_eq!(format!("Invalid data size :{}", data.len()), result.unwrap_err().message());
}

#[test]
fn complete_list_of_128bit_service_uuids_test_into() {
    let raw = [
        Uuid::parse_str("00000001-0000-1000-8000-00805F9B34FB").unwrap(),
        Uuid::parse_str("00000002-0000-1000-8000-00805F9B34FB").unwrap(),
    ];
    let uuids: Vec<BleUuid> = raw.iter().map(|u| ble(*u)).collect();
    let mut uuid_bytes: Vec<u8> = Vec::new();
    uuid_bytes.append(&mut raw[0].as_u128().to_le_bytes().to_vec());
    uuid_bytes.append(&mut raw[1].as_u128().to_le_bytes().to_vec());
    let result1 = CompleteListOf128BitServiceUuids::new(&uuids);

    let length = uuid_bytes.len() as u8 + 1;
    let mut data: Vec<u8> = Vec::new();
    data.push(length);
    data.push(CompleteListOf128BitServiceUuids::data_type());
    data.append(&mut uuid_bytes.clone());

    let into_data: Vec<u8> = result1.encode();
    assert_eq!(data, into_data);

    let result2 = CompleteListOf128BitServiceUuids::try_from(&data);
    assert!(result2.is_ok());
    let into_data: Vec<u8> = result2.unwrap().encode();
    assert_eq!(data, into_data);
}

#[test]
fn complete_list_of_128bit_service_uuids_test_data_type() {
    assert_eq!(0x07, CompleteListOf128BitServiceUuids::data_type());
}

#[test]
fn test_is_complete_list_of_128bit_service_uuids() {
    assert!(is_complete_list_of_128bit_service_uuids(0x07));
    assert!(!is_complete_list_of_128bit_service_uuids(0x00));
}

fn uuids16(uuid_bytes: &Vec<u8>) -> Vec<BleUuid> {
    uuid_bytes
        .windows(2)
        .step_by(2)
        .map(|f| {
            let base = base_uuid();
    let (d1, d2, d3, d4) = base.as_fields();
            ble(Uuid::from_fields(d1 | ((f[0] as u32) << 0) | ((f[1] as u32) << 8), d2, d3, d4))
        })
        .collect()
}

#[test]
fn complete_list_of_16bit_service_uuids_test_new() {
    let uuids: Vec<BleUuid> = vec![
        ble(Uuid::parse_str("00000001-0000-1000-8000-00805F9B34FB").unwrap()),
        ble(Uuid::parse_str("00000002-0000-1000-8000-00805F9B34FB").unwrap()),
    ];
    let result = CompleteListOf16BitServiceUuids::new(&uuids);
    assert_eq!(uuids.len() as u8 * 2 + 1, result.length);
    assert_eq!(uuids, result.uuids);
}

#[test]
fn complete_list_of_16bit_service_uuids_test_try_from() {
    let uuid_bytes: Vec<u8> = [0x01u8, 0x02u8, 0x03u8, 0x04u8].to_vec();
    let uuids = uuids16(&uuid_bytes);
    let length = uuid_bytes.len() as u8 + 1;
    let mut data: Vec<u8> = Vec::new();
    data.push(length);
    data.push(CompleteListOf16BitServiceUuids::data_type());
    data.append(&mut uuid_bytes.clone());

    let result = CompleteListOf16BitServiceUuids::try_from(&data);
    assert!(result.is_ok());
    let data_type = result.unwrap();
    assert_eq!(length, data_type.length);
    assert_eq!(uuids, data_type.uuids);
}

#[test]
fn complete_list_of_16bit_service_uuids_test_into() {
    let uuid_bytes: Vec<u8> = [0x01u8, 0x02u8, 0x03u8, 0x04u8].to_vec();
    let uuids = uuids16(&uuid_bytes);
    let result1 = CompleteListOf16BitServiceUuids::new(&uuids);

    let length = uuid_bytes.len() as u8 + 1;
    let mut data: Vec<u8> = Vec::new();
    data.push(length);
    data.push(CompleteListOf16BitServiceUuids::data_type());
    data.append(&mut uuid_bytes.clone());

    let into_data: Vec<u8> = result1.encode();
    assert_eq!(data, into_data);

    let result2 = CompleteListOf16BitServiceUuids::try_from(&data);
    assert!(result2.is_ok());
    let into_data: Vec<u8> = result2.unwrap().encode();
    assert_eq!(data, into_data);
}

#[test]
fn complete_list_of_16bit_service_uuids_test_data_type() {
    assert_eq!(0x03, CompleteListOf16BitServiceUuids::data_type());
}

#[test]
fn test_is_complete_list_of_16bit_service_uuids() {
    assert!(is_complete_list_of_16bit_service_uuids(0x03));
    assert!(!is_complete_list_of_16bit_service_uuids(0x00));
}

fn uuids32(uuid_bytes: &Vec<u8>) -> Vec<BleUuid> {
    uuid_bytes
        .windows(4)
        .step_by(4)
        .map(|f| {
            let mut uuid_bytes_le: Vec<u8> = f[0..4].to_vec();
            uuid_bytes_le.append(&mut base_uuid().to_bytes_le()[4..].to_vec());
            ble(Uuid::from_bytes_le(uuid_bytes_le.try_into().unwrap()))
        })
        .collect()
}

#[test]
fn list_of_32bit_service_solicitation_uuids_test_new() {
    let uuids: Vec<BleUuid> = vec![
        ble(Uuid::parse_str("00000001-0000-1000-8000-00805F9B34FB").unwrap()),
        ble(Uuid::parse_str("00000002-0000-1000-8000-00805F9B34FB").unwrap()),
    ];
    let result = ListOf32BitServiceSolicitationUUIDs::new(&uuids);
    assert_eq!(uuids.len() as u8 * 4 + 1, result.length);
    assert_eq!(uuids, result.uuids);
}

#[test]
fn list_of_32bit_service_solicitation_uuids_test_try_from() {
    let uuid_bytes: Vec<u8> = [0x01u8, 0x02u8, 0x03u8, 0x04u8, 0x05u8, 0x06u8, 0x07u8, 0x08u8].to_vec();
    let uuids = uuids32(&uuid_bytes);
    let length = uuid_bytes.len() as u8 + 1;
    let mut data: Vec<u8> = Vec::new();
    data.push(length);
    data.push(ListOf32BitServiceSolicitationUUIDs::data_type());
    data.append(&mut uuid_bytes.clone());

    let result = ListOf32BitServiceSolicitationUUIDs::try_from(&data);
    assert!(result.is_ok());
    let data_type = result.unwrap();
    assert_eq!(length, data_type.length);
    assert_eq!(uuids, data_type.uuids);

    let mut data: Vec<u8> = vec![0u8; 5];
    data[0] = data.len() as u8 - 1;
    let result = ListOf32BitServiceSolicitationUUIDs::try_from(&data);
    assert!(result.is_err());
    assert_eq!(format!("Invalid data size :{}", data.len()), result.unwrap_err().message());
}

#[test]
fn list_of_32bit_service_solicitation_uuids_test_into() {
    let uuid_bytes: Vec<u8> = [0x01u8, 0x02u8, 0x03u8, 0x04u8, 0x05u8, 0x06u8, 0x07u8, 0x08u8].to_vec();
    let uuids = uuids32(&uuid_bytes);
    let result1 = ListOf32BitServiceSolicitationUUIDs::new(&uuids);

    let length = uuid_bytes.len() as u8 + 1;
    let mut data: Vec<u8> = Vec::new();
    data.push(length);
    data.push(ListOf32BitServiceSolicitationUUIDs::data_type());
    data.append(&mut uuid_bytes.clone());

    let into_data: Vec<u8> = result1.encode();
    assert_eq!(data, into_data);

    let result2 = ListOf32BitServiceSolicitationUUIDs::try_from(&data);
    assert!(result2.is_ok());
    let into_data: Vec<u8> = result2.unwrap().encode();
    assert_eq!(data, into_data);
}

#[test]
fn list_of_32bit_service_solicitation_uuids_test_data_type() {
    assert_eq!(0x1f, ListOf32BitServiceSolicitationUUIDs::data_type());
}

#[test]
fn test_is_list_of_32bit_service_solicitation_uuids() {
    assert!(is_list_of_32bit_service_solicitation_uuids(0x1f));
    assert!(!is_list_of_32bit_service_solicitation_uuids(0x00));
}

#[test]
fn uuid16_list_payload_overlays_the_base_uuid() {
    let data = vec![5u8, 0x03, 0x01, 0x02, 0x03, 0x04];
    let list = CompleteListOf16BitServiceUuids::try_from(&data).unwrap();
    assert_eq!(2, list.uuids.len());
    assert_eq!(
        Uuid::parse_str("00000201-0000-1000-8000-00805F9B34FB").unwrap().into_bytes(),
        list.uuids[0].bytes
    );
    assert_eq!(
        Uuid::parse_str("00000403-0000-1000-8000-00805F9B34FB").unwrap().into_bytes(),
        list.uuids[1].bytes
    );
    assert_eq!(0x0201, u16::from_be_bytes([list.uuids[0].bytes[2], list.uuids[0].bytes[3]]));
    assert_eq!(base_uuid().into_bytes()[4..], list.uuids[1].bytes[4..]);
}

#[test]
fn uuid32_list_encodes_low_order_bytes_only() {
    let uuid = ble(Uuid::parse_str("0000180f-0000-1000-8000-00805F9B34FB").unwrap());
    let bytes = ListOf32BitServiceSolicitationUUIDs::new(&vec![uuid]).encode();
    assert_eq!(vec![5u8, 0x1f, 0x0f, 0x18, 0x00, 0x00], bytes);
    let not_short = ble(Uuid::parse_str("0000180f-1111-1000-8000-00805F9B34FB").unwrap());
    let bytes = ListOf32BitServiceSolicitationUUIDs::new(&vec![not_short]).encode();
    assert_eq!(vec![5u8, 0x1f, 0x0f, 0x18, 0x00, 0x00], bytes);
}

#[test]
fn uuid_list_rejects_partial_elements() {
    let data = vec![6u8, 0x03, 0x01, 0x02, 0x03, 0x04, 0x05];
    assert_eq!(
        DecodeError::InvalidFieldEncoding { data_type: 0x03, length: 6 },
        CompleteListOf16BitServiceUuids::try_from(&data).unwrap_err()
    );
    let data = vec![2u8, 0x03, 0x01, 0x02];
    assert_eq!(DecodeError::BufferTooShort(3), CompleteListOf16BitServiceUuids::try_from(&data).unwrap_err());
    let data = vec![3u8, 0x03, 0x01];
    assert_eq!(DecodeError::BufferTooShort(3), CompleteListOf16BitServiceUuids::try_from(&data).unwrap_err());
}

#[test]
fn base_uuid_matches_the_bluetooth_constant() {
    assert_eq!(base_uuid().into_bytes(), BleUuid::base().bytes);
}

#[test]
fn uuid16_list_of_the_largest_size_round_trips() {
    let uuids: Vec<BleUuid> = (0..127u16)
        .map(|n| {
            let mut bytes = BleUuid::base().bytes;
            bytes[2] = (n >> 8) as u8;
            bytes[3] = n as u8;
            BleUuid::from_bytes(bytes)
        })
        .collect();
    let bytes = CompleteListOf16BitServiceUuids::new(&uuids).encode();
    assert_eq!(256, bytes.len());
    assert_eq!(255, bytes[0]);
    let decoded = CompleteListOf16BitServiceUuids::try_from(&bytes).unwrap();
    assert_eq!(uuids, decoded.uuids);
    assert_eq!(bytes, decoded.encode());
}
