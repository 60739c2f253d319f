use ble_data_struct::{
    is_le_role, LeRole, CENTRAL_ROLE_PREFERRED_FOR_CONNECTION_STABLISHMENT,
    ONLY_CENTRAL_ROLE_SUPPORTED, ONLY_PERIPHERAL_ROLE_SUPPORTED,
    PERIPHERAL_ROLE_PREFERRED_FOR_CONNECTION_STABLISHMENT,
};

fn role_record(le_role: u8, length: u8) -> Vec<u8> {
    let mut data: Vec<u8> = Vec::new();
    data.push(length);
    data.push(LeRole::data_type());
    data.push(le_role);
    data
}

const ROLES: [u8; 4] = [
    ONLY_PERIPHERAL_ROLE_SUPPORTED,
    ONLY_CENTRAL_ROLE_SUPPORTED,
    PERIPHERAL_ROLE_PREFERRED_FOR_CONNECTION_STABLISHMENT,
    CENTRAL_ROLE_PREFERRED_FOR_CONNECTION_STABLISHMENT,
];

#[test]
fn le_role_test_new() {
    for le_role in ROLES {
        let result = LeRole::new(le_role);
        assert_eq!(2, result.length);
        assert_eq!(le_role, result.le_role);
    }
}

#[test]
fn le_role_test_from_with_offset() {
    for le_role in ROLES {
        let length = 2;
        let data = role_record(le_role, length);
        let result = LeRole::from_with_offset(&data, 0).unwrap();
        assert_eq!(length, result.length);
        assert_eq!(le_role, result.le_role);

        let mut data: Vec<u8> = vec![0];
        data.append(&mut role_record(le_role, length));
        let result = LeRole::from_with_offset(&data, 1).unwrap();
        assert_eq!(length, result.length);
        assert_eq!(length, result.length);
        assert_eq!(le_role, result.le_role);
    }
}

#[test]
fn test_is_only_peripheral_role_supported() {
    assert!(LeRole::new(ONLY_PERIPHERAL_ROLE_SUPPORTED).is_only_peripheral_role_supported());
    assert!(!LeRole::new(ONLY_CENTRAL_ROLE_SUPPORTED).is_only_peripheral_role_supported());
    assert!(!LeRole::new(PERIPHERAL_ROLE_PREFERRED_FOR_CONNECTION_STABLISHMENT).is_only_peripheral_role_supported());
    assert!(!LeRole::new(CENTRAL_ROLE_PREFERRED_FOR_CONNECTION_STABLISHMENT).is_only_peripheral_role_supported());
}

#[test]
fn test_is_only_central_role_supported() {
    assert!(!LeRole::new(ONLY_PERIPHERAL_ROLE_SUPPORTED).is_only_central_role_supported());
    assert!(LeRole::new(ONLY_CENTRAL_ROLE_SUPPORTED).is_only_central_role_supported());
    assert!(!LeRole::new(PERIPHERAL_ROLE_PREFERRED_FOR_CONNECTION_STABLISHMENT).is_only_central_role_supported());
    assert!(!LeRole::new(CENTRAL_ROLE_PREFERRED_FOR_CONNECTION_STABLISHMENT).is_only_central_role_supported());
}

#[test]
fn test_is_peripheral_role_preferred_for_connection_establishment() {
    assert!(!LeRole::new(ONLY_PERIPHERAL_ROLE_SUPPORTED).is_peripheral_role_preferred_for_connection_establishment());
    assert!(!LeRole::new(ONLY_CENTRAL_ROLE_SUPPORTED).is_peripheral_role_preferred_for_connection_establishment());
    assert!(LeRole::new(PERIPHERAL_ROLE_PREFERRED_FOR_CONNECTION_STABLISHMENT).is_peripheral_role_preferred_for_connection_establishment());
    assert!(!LeRole::new(CENTRAL_ROLE_PREFERRED_FOR_CONNECTION_STABLISHMENT).is_peripheral_role_preferred_for_connection_establishment());
}

#[test]
fn test_is_central_role_preferred_for_connection_establishment() {
    assert!(!LeRole::new(ONLY_PERIPHERAL_ROLE_SUPPORTED).is_central_role_preferred_for_connection_establishment());
    assert!(!LeRole::new(ONLY_CENTRAL_ROLE_SUPPORTED).is_central_role_preferred_for_connection_establishment());
    assert!(!LeRole::new(PERIPHERAL_ROLE_PREFERRED_FOR_CONNECTION_STABLISHMENT).is_central_role_preferred_for_connection_establishment());
    assert!(LeRole::new(CENTRAL_ROLE_PREFERRED_FOR_CONNECTION_STABLISHMENT).is_central_role_preferred_for_connection_establishment());
}

#[test]
fn le_role_test_from() {
    for le_role in ROLES {
        let length = 2;
        let data = role_record(le_role, length);
        let result = LeRole::try_from(&data).unwrap();
        assert_eq!(length, result.length);
        assert_eq!(le_role, result.le_role);
    }
}

#[test]
fn le_role_test_into() {
    for le_role in ROLES {
        let result1 = LeRole::new(le_role);
        let data = role_record(le_role, 2);
        let into_data: Vec<u8> = result1.encode();
        assert_eq!(data, into_data);
        let result2 = LeRole::try_from(&data).unwrap();
        let into_data: Vec<u8> = result2.encode();
        assert_eq!(data, into_data);
    }
}

#[test]
fn le_role_test_data_type() {
    assert_eq!(0x1c, LeRole::data_type());
}

#[test]
fn test_is_le_role() {
    assert!(is_le_role(0x1c));
    assert!(!is_le_role(0x00));
}
