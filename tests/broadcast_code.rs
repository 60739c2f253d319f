use ble_data_struct::{is_broadcast_code, BroadcastCode, DecodeError};

fn code_record(broadcast_code: &Vec<u8>) -> Vec<u8> {
    let length = broadcast_code.len() as u8 + 1;
    let mut data: Vec<u8> = Vec::new();
    data.push(length);
    data.push(BroadcastCode::data_type());
    data.append(&mut broadcast_code.clone());
    data
}

fn codes() -> Vec<Vec<u8>> {
    vec![
        [0x00u8; 4].to_vec(),
        [0x3fu8, 0x42u8, 0x0fu8, 0x00u8].to_vec(),
        [
            0x00u8, 0x01u8, 0x02u8, 0x03u8, 0x04u8, 0x05u8, 0x06u8, 0x08u8, 0x09u8, 0x0au8, 0x0bu8,
            0x0cu8, 0x0du8, 0x0eu8, 0x0fu8, 0x10u8,
        ]
        .to_vec(),
    ]
}

#[test]
fn broadcast_code_test_new() {
    for broadcast_code in codes() {
        let result = BroadcastCode::new(&broadcast_code);
        assert_eq!(broadcast_code.len() as u8 + 1, result.length);
        assert_eq!(broadcast_code, result.broadcast_code);
    }
}

#[test]
fn broadcast_code_test_try_from() {
    for broadcast_code in codes() {
        let length = broadcast_code.len() as u8 + 1;
        let data = code_record(&broadcast_code);
        let result = BroadcastCode::try_from(&data);
        assert!(result.is_ok());
        let data_type = result.unwrap();
        assert_eq!(length, data_type.length);
        assert_eq!(broadcast_code, data_type.broadcast_code);
    }

    let mut data: Vec<u8> = vec![0u8; 5];
    data[0] = data.len() as u8 - 1;
    let result = BroadcastCode::try_from(&data);
    assert!(result.is_err());
    assert_eq!(format!("Invalid data size :{}", data.len()), result.unwrap_err().message());
}

#[test]
fn broadcast_code_test_into() {
    for broadcast_code in codes() {
        let result1 = BroadcastCode::new(&broadcast_code);
        let data = code_record(&broadcast_code);
        let into_data: Vec<u8> = result1.encode();
        assert_eq!(data, into_data);

        let result2 = BroadcastCode::try_from(&data);
        assert!(result2.is_ok());
        let data_type = result2.unwrap();
        let into_data: Vec<u8> = data_type.encode();
        assert_eq!(data, into_data);
    }
}

#[test]
fn broadcast_code_test_data_type() {
    assert_eq!(0x2d, BroadcastCode::data_type());
}

#[test]
fn broadcast_code_test_is_broadcast_code() {
    assert!(is_broadcast_code(0x2d));
    assert!(!is_broadcast_code(0x00));
}

#[test]
fn broadcast_code_boundary_at_six_bytes() {
    let five = vec![4u8, 0x2d, 1, 2, 3];
    assert_eq!(DecodeError::BufferTooShort(5), BroadcastCode::try_from(&five).unwrap_err());
    let six = vec![5u8, 0x2d, 1, 2, 3, 4];
    assert_eq!(vec![1u8, 2, 3, 4], BroadcastCode::try_from(&six).unwrap().broadcast_code);
}

#[test]
fn broadcast_code_declared_length_decides_the_tail() {
    let longer_buffer = vec![5u8, 0x2d, 1, 2, 3, 4, 0xee, 0xee];
    assert_eq!(vec![1u8, 2, 3, 4], BroadcastCode::try_from(&longer_buffer).unwrap().broadcast_code);
    let runs_past_end = vec![9u8, 0x2d, 1, 2, 3, 4, 5];
    assert_eq!(DecodeError::BufferTooShort(7), BroadcastCode::try_from(&runs_past_end).unwrap_err());
    let declared_too_short = vec![2u8, 0x2d, 1, 2, 3, 4];
    assert_eq!(DecodeError::BufferTooShort(3), BroadcastCode::try_from(&declared_too_short).unwrap_err());
}

#[test]
fn broadcast_code_of_the_largest_size_round_trips() {
    let code: Vec<u8> = (0..254u32).map(|n| n as u8).collect();
    let bytes = BroadcastCode::new(&code).encode();
    assert_eq!(256, bytes.len());
    assert_eq!(255, bytes[0]);
    assert_eq!(code, BroadcastCode::try_from(&bytes).unwrap().broadcast_code);
}
