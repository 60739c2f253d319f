use ble_data_struct::DecodeError;

#[test]
fn error_messages() {
    assert_eq!("Invalid data size :0", DecodeError::BufferTooShort(0).message());
    assert_eq!("Invalid data size :17", DecodeError::BufferTooShort(17).message());
    assert_eq!("Invalid data size :1234567", DecodeError::BufferTooShort(1234567).message());
    assert_eq!("Unknown data type :255", DecodeError::UnknownType(255).message());
    assert_eq!(
        "Invalid length :6 for data type :3",
        DecodeError::InvalidFieldEncoding { data_type: 3, length: 6 }.message()
    );
}
