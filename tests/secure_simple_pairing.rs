use ble_data_struct::{
    is_secure_simple_pairing_hash_c256, is_secure_simple_pairing_randomizer_r192,
    is_secure_simple_pairing_randomizer_r256, DecodeError, SecureSimplePairingHashC256,
    SecureSimplePairingRandomizerR192, SecureSimplePairingRandomizerR256,
};

const VALUE: u128 = 0x0102030405060708090a0b0c0d0e0f10u128;

fn record(tag: u8, value: u128) -> Vec<u8> {
    let mut data: Vec<u8> = Vec::new();
    data.push(17);
    data.push(tag);
    data.append(&mut value.to_le_bytes().to_vec());
    data
}

#[test]
fn secure_simple_pairing_hash_c256_test_new() {
    let result = SecureSimplePairingHashC256::new(VALUE);
    assert_eq!(17, result.length);
    assert_eq!(VALUE, result.secure_simple_pairing_hash_c256);
}

#[test]
fn secure_simple_pairing_hash_c256_test_from_with_offset() {
    let length = 17;
    let data = record(SecureSimplePairingHashC256::data_type(), VALUE);
    let result = SecureSimplePairingHashC256::from_with_offset(&data, 0).unwrap();
    assert_eq!(length, result.length);
    assert_eq!(VALUE, result.secure_simple_pairing_hash_c256);

    let mut data: Vec<u8> = vec![0];
    data.append(&mut record(SecureSimplePairingHashC256::data_type(), VALUE));
    let result = SecureSimplePairingHashC256::from_with_offset(&data, 1).unwrap();
    assert_eq!(length, result.length);
    assert_eq!(VALUE, result.secure_simple_pairing_hash_c256);
}

#[test]
fn secure_simple_pairing_hash_c256_test_from() {
    let data = record(SecureSimplePairingHashC256::data_type(), VALUE);
    let result = SecureSimplePairingHashC256::try_from(&data).unwrap();
    assert_eq!(17, result.length);
    assert_eq!(VALUE, result.secure_simple_pairing_hash_c256);
}

#[test]
fn secure_simple_pairing_hash_c256_test_into() {
    let result1 = SecureSimplePairingHashC256::new(VALUE);
    let data = record(SecureSimplePairingHashC256::data_type(), VALUE);
    let into_data: Vec<u8> = result1.encode();
    assert_eq!(data, into_data);
    let result2 = SecureSimplePairingHashC256::try_from(&data).unwrap();
    let into_data: Vec<u8> = result2.encode();
    assert_eq!(data, into_data);
}

#[test]
fn secure_simple_pairing_hash_c256_test_data_type() {
    assert_eq!(0x1d, SecureSimplePairingHashC256::data_type());
}

#[test]
fn test_is_secure_simple_pairing_hash_c256() {
    assert!(is_secure_simple_pairing_hash_c256(0x1d));
    assert!(!is_secure_simple_pairing_hash_c256(0x00));
}

#[test]
fn secure_simple_pairing_randomizer_r256_test_new() {
    let result = SecureSimplePairingRandomizerR256::new(VALUE);
    assert_eq!(17, result.length);
    assert_eq!(VALUE, result.secure_simple_pairing_randomizer_r256);
}

#[test]
fn secure_simple_pairing_randomizer_r256_test_from_with_offset() {
    let length = 17;
    let data = record(SecureSimplePairingRandomizerR256::data_type(), VALUE);
    let result = SecureSimplePairingRandomizerR256::from_with_offset(&data, 0).unwrap();
    assert_eq!(length, result.length);
    assert_eq!(VALUE, result.secure_simple_pairing_randomizer_r256);

    let mut data: Vec<u8> = vec![0];
    data.append(&mut record(SecureSimplePairingRandomizerR256::data_type(), VALUE));
    let result = SecureSimplePairingRandomizerR256::from_with_offset(&data, 1).unwrap();
    assert_eq!(length, result.length);
    assert_eq!(VALUE, result.secure_simple_pairing_randomizer_r256);
}

#[test]
fn secure_simple_pairing_randomizer_r256_test_from() {
    let data = record(SecureSimplePairingRandomizerR256::data_type(), VALUE);
    let result = SecureSimplePairingRandomizerR256::try_from(&data).unwrap();
    assert_eq!(17, result.length);
    assert_eq!(VALUE, result.secure_simple_pairing_randomizer_r256);
}

#[test]
fn secure_simple_pairing_randomizer_r256_test_into() {
    let result1 = SecureSimplePairingRandomizerR256::new(VALUE);
    let data = record(SecureSimplePairingRandomizerR256::data_type(), VALUE);
    let into_data: Vec<u8> = result1.encode();
    assert_eq!(data, into_data);
    let result2 = SecureSimplePairingRandomizerR256::try_from(&data).unwrap();
    let into_data: Vec<u8> = result2.encode();
    assert_eq!(data, into_data);
}

#[test]
fn secure_simple_pairing_randomizer_r256_test_data_type() {
    assert_eq!(0x1e, SecureSimplePairingRandomizerR256::data_type());
}

#[test]
fn test_is_secure_simple_pairing_randomizer_r256() {
    assert!(is_secure_simple_pairing_randomizer_r256(0x1e));
    assert!(!is_secure_simple_pairing_randomizer_r256(0x00));
}

#[test]
fn secure_simple_pairing_randomizer_r192_test_new() {
    let result = SecureSimplePairingRandomizerR192::new(VALUE);
    assert_eq!(17, result.length);
    assert_eq!(VALUE, result.secure_simple_pairing_randomizer_r192);
}

#[test]
fn secure_simple_pairing_randomizer_r192_test_try_from() {
    let length = 17;
    let data = record(SecureSimplePairingRandomizerR192::data_type(), VALUE);
    let result = SecureSimplePairingRandomizerR192::try_from(&data);
    assert!(result.is_ok());
    let data_type = result.unwrap();
    assert_eq!(length, data_type.length);
    assert_eq!(VALUE, data_type.secure_simple_pairing_randomizer_r192);

    let mut data: Vec<u8> = vec![0u8; 17];
    data[0] = data.len() as u8 - 1;
    let result = SecureSimplePairingRandomizerR192::try_from(&data);
    assert!(result.is_err());
    assert_eq!(
        format!("Invalid data size :{}", data.len()),
        result.err().unwrap().message()
    );
}

#[test]
fn secure_simple_pairing_randomizer_r192_test_into() {
    let result1 = SecureSimplePairingRandomizerR192::new(VALUE);
    let data = record(SecureSimplePairingRandomizerR192::data_type(), VALUE);
    let into_data: Vec<u8> = result1.encode();
    assert_eq!(data, into_data);
    let result2 = SecureSimplePairingRandomizerR192::try_from(&data);
    assert!(result2.is_ok());
    let into_data: Vec<u8> = result2.unwrap().encode();
    assert_eq!(data, into_data);
}

#[test]
fn secure_simple_pairing_randomizer_r192_test_data_type() {
    assert_eq!(0x0f, SecureSimplePairingRandomizerR192::data_type());
}

#[test]
fn test_is_secure_simple_pairing_randomizer_r192() {
    assert!(is_secure_simple_pairing_randomizer_r192(0x0f));
    assert!(!is_secure_simple_pairing_randomizer_r192(0x00));
}

#[test]
fn secure_simple_pairing_values_are_little_endian_on_the_air() {
    let bytes = SecureSimplePairingHashC256::new(VALUE).encode();
    assert_eq!(18, bytes.len());
    assert_eq!(0x10, bytes[2]);
    assert_eq!(0x01, bytes[17]);
    assert_eq!(
        Err(DecodeError::BufferTooShort(17)),
        SecureSimplePairingHashC256::try_from(&bytes[..17].to_vec()).map(|v| v.secure_simple_pairing_hash_c256)
    );
    assert_eq!(
        u128::MAX,
        SecureSimplePairingHashC256::try_from(&SecureSimplePairingHashC256::new(u128::MAX).encode())
            .unwrap()
            .secure_simple_pairing_hash_c256
    );
}

#[test]
fn randomizer_tags_are_distinct() {
    assert!(!is_secure_simple_pairing_randomizer_r256(0x0f));
    assert!(!is_secure_simple_pairing_randomizer_r192(0x1e));
    let r256 = SecureSimplePairingRandomizerR256::new(VALUE).encode();
    assert_eq!(0x1e, r256[1]);
    assert!(matches!(
        ble_data_struct::DataTypeParseResult::from(&r256),
        ble_data_struct::DataTypeParseResult::SecureSimplePairingRandomizerR256Result(Ok(ref v))
            if v.secure_simple_pairing_randomizer_r256 == VALUE
    ));
    let r192 = SecureSimplePairingRandomizerR192::new(VALUE).encode();
    assert!(matches!(
        ble_data_struct::DataTypeParseResult::from(&r192),
        ble_data_struct::DataTypeParseResult::SecureSimplePairingRandomizerR192Result(Ok(_))
    ));
}
