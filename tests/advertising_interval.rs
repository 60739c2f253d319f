use ble_data_struct::{
    is_advertising_interval, is_advertising_interval_long, AdvertisingInterval,
    AdvertisingIntervalLong, DecodeError,
};

#[test]
fn advertising_interval_round_trip() {
    let bytes = AdvertisingInterval::new(0x0800).encode();
    assert_eq!(vec![3u8, 0x1a, 0x00, 0x08], bytes);
    let decoded = AdvertisingInterval::try_from(&bytes).unwrap();
    assert_eq!(3, decoded.length);
    assert_eq!(0x0800, decoded.advertising_interval);
    assert_eq!(0x1a, AdvertisingInterval::data_type());
    assert!(is_advertising_interval(0x1a));
    assert!(!is_advertising_interval(0x00));
}

#[test]
fn advertising_interval_long_three_and_four_bytes() {
    let bytes = AdvertisingIntervalLong::new(false, 0x030201).encode();
    assert_eq!(vec![4u8, 0x2f, 0x01, 0x02, 0x03], bytes);
    assert_eq!(0x030201, AdvertisingIntervalLong::try_from(&bytes).unwrap().advertising_interval_long);

    let bytes = AdvertisingIntervalLong::new(true, 0x01020304).encode();
    assert_eq!(vec![5u8, 0x2f, 0x04, 0x03, 0x02, 0x01], bytes);
    let decoded = AdvertisingIntervalLong::try_from(&bytes).unwrap();
    assert_eq!(5, decoded.length);
    assert_eq!(0x01020304, decoded.advertising_interval_long);
    assert_eq!(bytes, decoded.encode());

    assert_eq!(0x2f, AdvertisingIntervalLong::data_type());
    assert!(is_advertising_interval_long(0x2f));
}

#[test]
fn advertising_interval_long_rejects_other_lengths() {
    let bytes = vec![6u8, 0x2f, 1, 2, 3, 4, 5];
    assert_eq!(
        DecodeError::InvalidFieldEncoding { data_type: 0x2f, length: 6 },
        AdvertisingIntervalLong::try_from(&bytes).unwrap_err()
    );
    let bytes = vec![3u8, 0x2f, 1, 2];
    assert_eq!(DecodeError::BufferTooShort(4), AdvertisingIntervalLong::try_from(&bytes).unwrap_err());
}
