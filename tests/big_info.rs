use ble_data_struct::{is_big_info, BigInfo, DecodeError};

fn sample(giv: Option<[u8; 8]>, gskd: Option<[u8; 16]>) -> BigInfo {
    BigInfo::new(
        0x3abc, true, 0x0fed, 0x1f, 0x11, 0x5, 0xabcde, 0x9, 0x12345, 0xc, 0xfe, 0x42, 0xdeadbeef,
        0x54321, 0xabc, 0xbeef, 0x1f_0f0f_0f0f, 0x6, 0x7f_1234_5678, true, giv, gskd,
    )
}

fn same_fields(a: &BigInfo, b: &BigInfo) -> bool {
    a.length == b.length
        && a.big_offset == b.big_offset
        && a.big_offset_units == b.big_offset_units
        && a.iso_interval == b.iso_interval
        && a.num_bis == b.num_bis
        && a.nse == b.nse
        && a.bn == b.bn
        && a.sub_interval == b.sub_interval
        && a.pto == b.pto
        && a.bis_spacing == b.bis_spacing
        && a.irc == b.irc
        && a.max_pdu == b.max_pdu
        && a.rfu == b.rfu
        && a.seed_access_address == b.seed_access_address
        && a.sdu_interval == b.sdu_interval
        && a.max_sdu == b.max_sdu
        && a.base_crc_init == b.base_crc_init
        && a.ch_m == b.ch_m
        && a.phy == b.phy
        && a.bis_payload_count == b.bis_payload_count
        && a.framing == b.framing
        && a.giv == b.giv
        && a.gskd == b.gskd
}

#[test]
fn big_info_round_trip_without_keys() {
    let x = sample(None, None);
    let bytes = x.encode();
    assert_eq!(35, bytes.len());
    assert_eq!(34, bytes[0]);
    assert_eq!(0x2c, bytes[1]);
    let y = BigInfo::try_from(&bytes).unwrap();
    assert!(same_fields(&x, &y));
    assert_eq!(None, y.giv);
    assert_eq!(bytes, y.encode());
}

#[test]
fn big_info_round_trip_with_keys() {
    let x = sample(Some([1, 2, 3, 4, 5, 6, 7, 8]), Some([9; 16]));
    let bytes = x.encode();
    assert_eq!(59, bytes.len());
    assert_eq!(58, bytes[0]);
    assert_eq!(&[1u8, 2, 3, 4, 5, 6, 7, 8], &bytes[35..43]);
    let y = BigInfo::try_from(&bytes).unwrap();
    assert!(same_fields(&x, &y));
}

#[test]
fn big_info_first_group_is_packed_low_bits_first() {
    let x = BigInfo::new(
        0x0001, true, 0x001, 0x01, 0, 0, 0, 0, 0, 0, 0, 0, 0, 0, 0, 0, 0, 0, 0, false, None, None,
    );
    let bytes = x.encode();
    let g1 = u32::from_le_bytes([bytes[2], bytes[3], bytes[4], bytes[5]]);
    assert_eq!(1 | (1 << 14) | (1 << 15) | (1 << 27), g1);
}

#[test]
fn big_info_rejects_other_lengths() {
    let mut bytes = sample(None, None).encode();
    bytes[0] = 40;
    bytes.resize(41, 0);
    assert_eq!(
        DecodeError::InvalidFieldEncoding { data_type: 0x2c, length: 40 },
        BigInfo::try_from(&bytes).unwrap_err()
    );
    let short = vec![34u8, 0x2c, 0, 0];
    assert_eq!(DecodeError::BufferTooShort(4), BigInfo::try_from(&short).unwrap_err());
}

#[test]
fn big_info_tag() {
    assert_eq!(0x2c, BigInfo::data_type());
    assert!(is_big_info(0x2c));
    assert!(!is_big_info(0x00));
}
