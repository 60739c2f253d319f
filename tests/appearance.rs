use ble_data_struct::Appearance;

fn appearance_record(appearance: u16, length: u8) -> Vec<u8> {
    let mut data: Vec<u8> = Vec::new();
    data.push(length);
    data.push(Appearance::data_type());
    data.append(&mut appearance.to_le_bytes().to_vec());
    data
}

#[test]
fn appearance_test_new() {
    let appearance: u16 = 0x1444;
    let result = Appearance::new(appearance);
    assert_eq!(3, result.length);
    assert_eq!(appearance, result.appearance);
}

#[test]
fn appearance_test_from_with_offset() {
    let appearance: u16 = 0x1444;
    let length = 3;
    let mut data = appearance_record(appearance, length);

    let result = Appearance::from_with_offset(&data, 0).unwrap();
    assert_eq!(length, result.length);
    assert_eq!(appearance, result.appearance);

    data = Vec::new();
    data.push(0);
    data.push(length);
    data.push(Appearance::data_type());
    data.append(&mut appearance.to_le_bytes().to_vec());
    let result = Appearance::from_with_offset(&data, 1).unwrap();
    assert_eq!(length, result.length);
    assert_eq!(appearance, result.appearance);
}

#[test]
fn test_category() {
    let data = appearance_record(0x1444, 3);
    let result = Appearance::from_with_offset(&data, 0).unwrap();
    assert_eq!(0x051, result.category());
}

#[test]
fn test_sub_category() {
    let data = appearance_record(0x1444, 3);
    let result = Appearance::from_with_offset(&data, 0).unwrap();
    assert_eq!(0x04, result.sub_category());
}

#[test]
fn appearance_test_from() {
    let appearance: u16 = 0x1444;
    let length = 3;
    let data = appearance_record(appearance, length);
    let result = Appearance::try_from(&data).unwrap();
    assert_eq!(length, result.length);
    assert_eq!(appearance, result.appearance);
}

#[test]
fn appearance_test_into() {
    let appearance: u16 = 0x1444;
    let result1 = Appearance::new(appearance);

    let data = appearance_record(appearance, 3);

    let into_data: Vec<u8> = result1.encode();
    assert_eq!(data, into_data);

    let result2 = Appearance::try_from(&data).unwrap();
    let into_data: Vec<u8> = result2.encode();
    assert_eq!(data, into_data);
}

#[test]
fn appearance_test_data_type() {
    assert_eq!(0x19, Appearance::data_type());
}

#[test]
fn appearance_category_uses_bits_6_to_15() {
    let result = Appearance::new(0xffff);
    assert_eq!(0x3ff, result.category());
    assert_eq!(0x3f, result.sub_category());
    let result = Appearance::new(0x0040);
    assert_eq!(0x001, result.category());
    assert_eq!(0x00, result.sub_category());
}

#[test]
fn appearance_rejects_short_and_inconsistent_records() {
    let data = vec![3u8, 0x19, 0x44];
    assert_eq!(
        Err(ble_data_struct::DecodeError::BufferTooShort(3)),
        Appearance::try_from(&data).map(|a| a.appearance)
    );
    let data = vec![4u8, 0x19, 0x44, 0x14, 0x00];
    assert_eq!(
        Err(ble_data_struct::DecodeError::InvalidFieldEncoding { data_type: 0x19, length: 4 }),
        Appearance::try_from(&data).map(|a| a.appearance)
    );
    let data = vec![3u8, 0x19, 0x44, 0x14];
    assert_eq!(
        Err(ble_data_struct::DecodeError::BufferTooShort(0)),
        Appearance::from_with_offset(&data, 9).map(|a| a.appearance)
    );
}

#[test]
fn appearance_round_trip_and_length_byte() {
    for value in [0u16, 1, 0x1444, 0xffff] {
        let bytes = Appearance::new(value).encode();
        assert_eq!(bytes[0] as usize, bytes.len() - 1);
        assert_eq!(bytes[1], Appearance::data_type());
        assert_eq!(value, Appearance::try_from(&bytes).unwrap().appearance);
    }
}
