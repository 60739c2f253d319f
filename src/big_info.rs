//! BIGInfo (data type 0x2c): the parameters of a broadcast isochronous group,
//! thirty-three bytes of fields packed at bit offsets, least significant bit
//! first, followed in an encrypted group by the GIV (8 bytes) and the GSKD
//! (16 bytes). The declared length tells whether those two are present.
//!
//! The fields fall into byte-aligned groups, each read as one little-endian
//! integer of one to five bytes:
//!
//! | bytes  | fields (bits, low to high)                                     |
//! |--------|----------------------------------------------------------------|
//! | 0..4   | BIG_Offset 14, BIG_Offset_Units 1, ISO_Interval 12, Num_BIS 5  |
//! | 4      | NSE 5, BN 3                                                    |
//! | 5..8   | Sub_Interval 20, PTO 4                                         |
//! | 8..11  | BIS_Spacing 20, IRC 4                                          |
//! | 11     | Max_PDU 8                                                      |
//! | 12     | RFU 8                                                          |
//! | 13..17 | SeedAccessAddress 32                                           |
//! | 17..21 | SDU_Interval 20, Max_SDU 12                                    |
//! | 21..23 | BaseCRCInit 16                                                 |
//! | 23..28 | ChM 37, PHY 3                                                  |
//! | 28..33 | bisPayloadCount 39, Framing 1                                  |

use crate::error::DecodeError;
use crate::record::{
    check_variable_size, copy_array, lemma_record_at_zero, push_array, record_at,
    variable_size_error,
};
use crate::wire::{
    le_bytes, le_value, lemma_le_bytes_len, lemma_le_bytes_of_value, lemma_le_value_bound,
    lemma_le_value_of_bytes, lemma_pow256_mono, lemma_pow256_small, pow256, push_le, read_le,
};
use vstd::prelude::*;

verus! {

/// Type tag of [`BigInfo`].
pub const BIG_INFO_DATA_TYPE: u8 = 0x2c;

/// Declared length of a record without GIV and GSKD.
pub const BIG_INFO_LENGTH: u8 = 34;

/// Declared length of a record with GIV and GSKD.
pub const BIG_INFO_ENCRYPTED_LENGTH: u8 = 58;

/// BIGInfo.
#[derive(Debug)]
pub struct BigInfo {
    /// Declared length: 34 without GIV and GSKD, 58 with them.
    pub length: u8,
    /// BIG_Offset, 14 bits.
    pub big_offset: u16,
    /// BIG_Offset_Units, 1 bit.
    pub big_offset_units: bool,
    /// ISO_Interval, 12 bits.
    pub iso_interval: u16,
    /// Num_BIS, 5 bits.
    pub num_bis: u8,
    /// NSE, 5 bits.
    pub nse: u8,
    /// BN, 3 bits.
    pub bn: u8,
    /// Sub_Interval, 20 bits.
    pub sub_interval: u32,
    /// PTO, 4 bits.
    pub pto: u8,
    /// BIS_Spacing, 20 bits.
    pub bis_spacing: u32,
    /// IRC, 4 bits.
    pub irc: u8,
    /// Max_PDU, 8 bits.
    pub max_pdu: u8,
    /// RFU, 8 bits.
    pub rfu: u8,
    /// SeedAccessAddress, 32 bits.
    pub seed_access_address: u32,
    /// SDU_Interval, 20 bits.
    pub sdu_interval: u32,
    /// Max_SDU, 12 bits.
    pub max_sdu: u16,
    /// BaseCRCInit, 16 bits.
    pub base_crc_init: u16,
    /// ChM, 37 bits.
    pub ch_m: u64,
    /// PHY, 3 bits.
    pub phy: u8,
    /// bisPayloadCount, 39 bits.
    pub bis_payload_count: u64,
    /// Framing, 1 bit.
    pub framing: bool,
    /// GIV: present in an encrypted group only.
    pub giv: Option<[u8; 8]>,
    /// GSKD: present in an encrypted group only.
    pub gskd: Option<[u8; 16]>,
}

/// A flag as a bit.
pub open spec fn bit(b: bool) -> u64 {
    if b {
        1
    } else {
        0
    }
}

/// The group at payload bytes `from .. from + n` of the record `s`, as a
/// little-endian integer.
pub open spec fn group_at(s: Seq<u8>, from: int, n: nat) -> u64 {
    le_value(s.subrange(2 + from, 2 + from + n)) as u64
}

/// Both GIV and GSKD are present.
pub open spec fn is_encrypted(x: BigInfo) -> bool {
    x.giv is Some && x.gskd is Some
}

/// The length byte of the encoding of `x`.
pub open spec fn encoded_length(x: BigInfo) -> u8 {
    if is_encrypted(x) {
        BIG_INFO_ENCRYPTED_LENGTH
    } else {
        BIG_INFO_LENGTH
    }
}

/// Bytes 0..4: BIG_Offset, BIG_Offset_Units, ISO_Interval, Num_BIS.
pub open spec fn group1(x: BigInfo) -> u64 {
    (x.big_offset as u64) | (bit(x.big_offset_units) << 14u64) | ((x.iso_interval as u64) << 15u64)
        | ((x.num_bis as u64) << 27u64)
}

/// Byte 4: NSE, BN.
pub open spec fn group2(x: BigInfo) -> u64 {
    (x.nse as u64) | ((x.bn as u64) << 5u64)
}

/// Bytes 5..8: Sub_Interval, PTO.
pub open spec fn group3(x: BigInfo) -> u64 {
    (x.sub_interval as u64) | ((x.pto as u64) << 20u64)
}

/// Bytes 8..11: BIS_Spacing, IRC.
pub open spec fn group4(x: BigInfo) -> u64 {
    (x.bis_spacing as u64) | ((x.irc as u64) << 20u64)
}

/// Bytes 17..21: SDU_Interval, Max_SDU.
pub open spec fn group8(x: BigInfo) -> u64 {
    (x.sdu_interval as u64) | ((x.max_sdu as u64) << 20u64)
}

/// Bytes 23..28: ChM, PHY.
pub open spec fn group10(x: BigInfo) -> u64 {
    x.ch_m | ((x.phy as u64) << 37u64)
}

/// Bytes 28..33: bisPayloadCount, Framing.
pub open spec fn group11(x: BigInfo) -> u64 {
    x.bis_payload_count | (bit(x.framing) << 39u64)
}

/// The thirty-three bytes of packed fields.
pub open spec fn packed_fields(x: BigInfo) -> Seq<u8> {
    le_bytes(group1(x) as nat, 4) + le_bytes(group2(x) as nat, 1) + le_bytes(group3(x) as nat, 3)
        + le_bytes(group4(x) as nat, 3) + le_bytes(x.max_pdu as nat, 1) + le_bytes(x.rfu as nat, 1)
        + le_bytes(x.seed_access_address as nat, 4) + le_bytes(group8(x) as nat, 4) + le_bytes(
        x.base_crc_init as nat,
        2,
    ) + le_bytes(group10(x) as nat, 5) + le_bytes(group11(x) as nat, 5)
}

/// GIV and GSKD where both are present, nothing otherwise.
pub open spec fn key_material(x: BigInfo) -> Seq<u8> {
    match (x.giv, x.gskd) {
        (Some(g), Some(k)) => g@ + k@,
        _ => Seq::empty(),
    }
}

/// The fields of `x` are those that the record `s` packs.
pub open spec fn fields_match(x: BigInfo, s: Seq<u8>) -> bool {
    let g1 = group_at(s, 0, 4);
    let g2 = group_at(s, 4, 1);
    let g3 = group_at(s, 5, 3);
    let g4 = group_at(s, 8, 3);
    let g8 = group_at(s, 17, 4);
    let g10 = group_at(s, 23, 5);
    let g11 = group_at(s, 28, 5);
    &&& x.big_offset as u64 == g1 & 0x3fff
    &&& x.big_offset_units == ((g1 >> 14u64) & 1 == 1)
    &&& x.iso_interval as u64 == (g1 >> 15u64) & 0xfff
    &&& x.num_bis as u64 == g1 >> 27u64
    &&& x.nse as u64 == g2 & 0x1f
    &&& x.bn as u64 == g2 >> 5u64
    &&& x.sub_interval as u64 == g3 & 0xfffff
    &&& x.pto as u64 == g3 >> 20u64
    &&& x.bis_spacing as u64 == g4 & 0xfffff
    &&& x.irc as u64 == g4 >> 20u64
    &&& x.max_pdu as u64 == group_at(s, 11, 1)
    &&& x.rfu as u64 == group_at(s, 12, 1)
    &&& x.seed_access_address as u64 == group_at(s, 13, 4)
    &&& x.sdu_interval as u64 == g8 & 0xfffff
    &&& x.max_sdu as u64 == g8 >> 20u64
    &&& x.base_crc_init as u64 == group_at(s, 21, 2)
    &&& x.ch_m == g10 & 0x1f_ffff_ffff
    &&& x.phy as u64 == g10 >> 37u64
    &&& x.bis_payload_count == g11 & 0x7f_ffff_ffff
    &&& x.framing == (g11 >> 39u64 == 1)
    &&& if s[0] == BIG_INFO_ENCRYPTED_LENGTH {
        &&& x.giv matches Some(g) && g@ == s.subrange(35, 43)
        &&& x.gskd matches Some(k) && k@ == s.subrange(43, 59)
    } else {
        x.giv is None && x.gskd is None
    }
}

impl BigInfo {
    /// Every field fits in its bits, and the declared length says whether GIV
    /// and GSKD are present.
    pub open spec fn wf(&self) -> bool {
        &&& self.big_offset < 0x4000
        &&& self.iso_interval < 0x1000
        &&& self.num_bis < 0x20
        &&& self.nse < 0x20
        &&& self.bn < 0x8
        &&& self.sub_interval < 0x10_0000
        &&& self.pto < 0x10
        &&& self.bis_spacing < 0x10_0000
        &&& self.irc < 0x10
        &&& self.sdu_interval < 0x10_0000
        &&& self.max_sdu < 0x1000
        &&& self.ch_m < 0x20_0000_0000
        &&& self.phy < 0x8
        &&& self.bis_payload_count < 0x80_0000_0000
        &&& if is_encrypted(*self) {
            self.length == BIG_INFO_ENCRYPTED_LENGTH
        } else {
            self.length == BIG_INFO_LENGTH && self.giv is None && self.gskd is None
        }
    }

    /// The record that encodes `self`: 58 as the length byte where GIV and
    /// GSKD are both present, 34 otherwise.
    pub open spec fn wire(&self) -> Seq<u8> {
        seq![encoded_length(*self), BIG_INFO_DATA_TYPE] + packed_fields(*self) + key_material(*self)
    }

    /// The size check: the record checks for the shorter layout, and a
    /// declared length of one of the two layouts.
    pub open spec fn size_error(s: Seq<u8>) -> Option<DecodeError> {
        match variable_size_error(s, BIG_INFO_LENGTH as nat + 1) {
            Some(e) => Some(e),
            None => if s[0] != BIG_INFO_LENGTH && s[0] != BIG_INFO_ENCRYPTED_LENGTH {
                Some(
                    DecodeError::InvalidFieldEncoding { data_type: BIG_INFO_DATA_TYPE, length: s[0] },
                )
            } else {
                None
            },
        }
    }

    /// `r` is what decoding the record `s` gives.
    pub open spec fn decodes(s: Seq<u8>, r: Result<BigInfo, DecodeError>) -> bool {
        match Self::size_error(s) {
            Some(e) => r == Err::<BigInfo, DecodeError>(e),
            None => r matches Ok(v) && v.length == s[0] && fields_match(v, s),
        }
    }

    /// Creates a BIGInfo record; GIV and GSKD are carried when both are given.
    pub fn new(
        big_offset: u16,
        big_offset_units: bool,
        iso_interval: u16,
        num_bis: u8,
        nse: u8,
        bn: u8,
        sub_interval: u32,
        pto: u8,
        bis_spacing: u32,
        irc: u8,
        max_pdu: u8,
        rfu: u8,
        seed_access_address: u32,
        sdu_interval: u32,
        max_sdu: u16,
        base_crc_init: u16,
        ch_m: u64,
        phy: u8,
        bis_payload_count: u64,
        framing: bool,
        giv: Option<[u8; 8]>,
        gskd: Option<[u8; 16]>,
    ) -> (r: Self)
        ensures
            r.length == (if giv is Some && gskd is Some {
                BIG_INFO_ENCRYPTED_LENGTH
            } else {
                BIG_INFO_LENGTH
            }),
            r.big_offset == big_offset,
            r.big_offset_units == big_offset_units,
            r.iso_interval == iso_interval,
            r.num_bis == num_bis,
            r.nse == nse,
            r.bn == bn,
            r.sub_interval == sub_interval,
            r.pto == pto,
            r.bis_spacing == bis_spacing,
            r.irc == irc,
            r.max_pdu == max_pdu,
            r.rfu == rfu,
            r.seed_access_address == seed_access_address,
            r.sdu_interval == sdu_interval,
            r.max_sdu == max_sdu,
            r.base_crc_init == base_crc_init,
            r.ch_m == ch_m,
            r.phy == phy,
            r.bis_payload_count == bis_payload_count,
            r.framing == framing,
            r.giv == giv,
            r.gskd == gskd,
    {
        let length = if giv.is_some() && gskd.is_some() {
            BIG_INFO_ENCRYPTED_LENGTH
        } else {
            BIG_INFO_LENGTH
        };
        Self {
            length,
            big_offset,
            big_offset_units,
            iso_interval,
            num_bis,
            nse,
            bn,
            sub_interval,
            pto,
            bis_spacing,
            irc,
            max_pdu,
            rfu,
            seed_access_address,
            sdu_interval,
            max_sdu,
            base_crc_init,
            ch_m,
            phy,
            bis_payload_count,
            framing,
            giv,
            gskd,
        }
    }

    /// Decodes the record that starts at `offset` in `data`.
    pub fn from_with_offset(data: &Vec<u8>, offset: usize) -> (r: Result<Self, DecodeError>)
        ensures
            Self::decodes(record_at(data@, offset as int), r),
    {
        if let Some(e) = check_variable_size(data, offset, BIG_INFO_LENGTH as usize + 1) {
            return Err(e);
        }
        let length = data[offset];
        if length != BIG_INFO_LENGTH && length != BIG_INFO_ENCRYPTED_LENGTH {
            return Err(DecodeError::InvalidFieldEncoding { data_type: BIG_INFO_DATA_TYPE, length });
        }
        let ghost s = record_at(data@, offset as int);
        let len = data.len();
        let p = offset + 2;
        let g1 = read_le(data, p, 4) as u64;
        let g2 = read_le(data, p + 4, 1) as u64;
        let g3 = read_le(data, p + 5, 3) as u64;
        let g4 = read_le(data, p + 8, 3) as u64;
        let g5 = read_le(data, p + 11, 1) as u64;
        let g6 = read_le(data, p + 12, 1) as u64;
        let g7 = read_le(data, p + 13, 4) as u64;
        let g8 = read_le(data, p + 17, 4) as u64;
        let g9 = read_le(data, p + 21, 2) as u64;
        let g10 = read_le(data, p + 23, 5) as u64;
        let g11 = read_le(data, p + 28, 5) as u64;
        proof {
            lemma_pow256_small();
            lemma_group_reads(data@, offset as int);
            lemma_bits_group1(0, 0, 0, 0, g1);
            lemma_bits_5_3(0, 0, g2);
            lemma_bits_20_4(0, 0, g3);
            lemma_bits_20_4(0, 0, g4);
            lemma_bits_20_12(0, 0, g8);
            lemma_bits_37_3(0, 0, g10);
            lemma_bits_39_1(0, 0, g11);
        }
        let (giv, gskd) = if length == BIG_INFO_ENCRYPTED_LENGTH {
            let giv: [u8; 8] = copy_array(data, p + 33);
            let gskd: [u8; 16] = copy_array(data, p + 41);
            proof {
                assert(giv@ =~= s.subrange(35, 43));
                assert(gskd@ =~= s.subrange(43, 59));
            }
            (Some(giv), Some(gskd))
        } else {
            (None, None)
        };
        Ok(
            Self {
                length,
                big_offset: (g1 & 0x3fff) as u16,
                big_offset_units: (g1 >> 14u64) & 1 == 1,
                iso_interval: ((g1 >> 15u64) & 0xfff) as u16,
                num_bis: (g1 >> 27u64) as u8,
                nse: (g2 & 0x1f) as u8,
                bn: (g2 >> 5u64) as u8,
                sub_interval: (g3 & 0xfffff) as u32,
                pto: (g3 >> 20u64) as u8,
                bis_spacing: (g4 & 0xfffff) as u32,
                irc: (g4 >> 20u64) as u8,
                max_pdu: g5 as u8,
                rfu: g6 as u8,
                seed_access_address: g7 as u32,
                sdu_interval: (g8 & 0xfffff) as u32,
                max_sdu: (g8 >> 20u64) as u16,
                base_crc_init: g9 as u16,
                ch_m: g10 & 0x1f_ffff_ffff,
                phy: (g10 >> 37u64) as u8,
                bis_payload_count: g11 & 0x7f_ffff_ffff,
                framing: g11 >> 39u64 == 1,
                giv,
                gskd,
            },
        )
    }

    /// Decodes the record at the start of `data`.
    pub fn try_from(data: &Vec<u8>) -> (r: Result<Self, DecodeError>)
        ensures
            Self::decodes(data@, r),
    {
        proof {
            lemma_record_at_zero(data@);
        }
        Self::from_with_offset(data, 0)
    }

    /// Encodes the record: length byte (58 where GIV and GSKD are both
    /// present, 34 otherwise), tag, the packed fields, then GIV and GSKD where
    /// both are present.
    #[verifier::rlimit(40)]
    pub fn encode(&self) -> (r: Vec<u8>)
        ensures
            r@ == self.wire(),
            r@.len() == r@[0] + 1,
            r@[1] == BIG_INFO_DATA_TYPE,
    {
        let units: u64 = if self.big_offset_units {
            1
        } else {
            0
        };
        let framing: u64 = if self.framing {
            1
        } else {
            0
        };
        let g1 = (self.big_offset as u64) | (units << 14u64) | ((self.iso_interval as u64) << 15u64)
            | ((self.num_bis as u64) << 27u64);
        let g2 = (self.nse as u64) | ((self.bn as u64) << 5u64);
        let g3 = (self.sub_interval as u64) | ((self.pto as u64) << 20u64);
        let g4 = (self.bis_spacing as u64) | ((self.irc as u64) << 20u64);
        let g8 = (self.sdu_interval as u64) | ((self.max_sdu as u64) << 20u64);
        let g10 = self.ch_m | ((self.phy as u64) << 37u64);
        let g11 = self.bis_payload_count | (framing << 39u64);
        let length = if self.giv.is_some() && self.gskd.is_some() {
            BIG_INFO_ENCRYPTED_LENGTH
        } else {
            BIG_INFO_LENGTH
        };
        let mut data: Vec<u8> = Vec::new();
        data.push(length);
        data.push(BIG_INFO_DATA_TYPE);
        push_le(&mut data, g1 as u128, 4);
        push_le(&mut data, g2 as u128, 1);
        push_le(&mut data, g3 as u128, 3);
        push_le(&mut data, g4 as u128, 3);
        push_le(&mut data, self.max_pdu as u128, 1);
        push_le(&mut data, self.rfu as u128, 1);
        push_le(&mut data, self.seed_access_address as u128, 4);
        push_le(&mut data, g8 as u128, 4);
        push_le(&mut data, self.base_crc_init as u128, 2);
        push_le(&mut data, g10 as u128, 5);
        push_le(&mut data, g11 as u128, 5);
        let ghost fields = data@;
        match (&self.giv, &self.gskd) {
            (Some(g), Some(k)) => {
                push_array(&mut data, g);
                push_array(&mut data, k);
            },
            _ => {},
        }
        proof {
            lemma_packed_fields_len(*self);
            assert(fields =~= seq![length, BIG_INFO_DATA_TYPE] + packed_fields(*self));
            assert(data@ =~= self.wire());
        }
        data
    }

    /// The type tag, `0x2c`.
    pub fn data_type() -> (r: u8)
        ensures
            r == BIG_INFO_DATA_TYPE,
    {
        BIG_INFO_DATA_TYPE
    }
}

/// Whether `data_type` is the tag of [`BigInfo`].
pub fn is_big_info(data_type: u8) -> (r: bool)
    ensures
        r == (data_type == BIG_INFO_DATA_TYPE),
{
    data_type == BIG_INFO_DATA_TYPE
}

/// Decoding the encoding of a well-formed BIGInfo gives it back, GIV and GSKD
/// included.
pub proof fn lemma_big_info_decode_encode(x: BigInfo, r: Result<BigInfo, DecodeError>)
    requires
        x.wf(),
        BigInfo::decodes(x.wire(), r),
    ensures
        r == Ok::<BigInfo, DecodeError>(x),
{
    let s = x.wire();
    lemma_packed_fields_len(x);
    lemma_pow256_small();
    lemma_bits_group1(
        x.big_offset as u64,
        bit(x.big_offset_units),
        x.iso_interval as u64,
        x.num_bis as u64,
        0,
    );
    lemma_bits_5_3(x.nse as u64, x.bn as u64, 0);
    lemma_bits_20_4(x.sub_interval as u64, x.pto as u64, 0);
    lemma_bits_20_4(x.bis_spacing as u64, x.irc as u64, 0);
    lemma_bits_20_12(x.sdu_interval as u64, x.max_sdu as u64, 0);
    lemma_bits_37_3(x.ch_m, x.phy as u64, 0);
    lemma_bits_39_1(x.bis_payload_count, bit(x.framing), 0);
    lemma_wire_pieces(x);
    lemma_group_of_bytes(s, 0, group1(x) as nat, 4);
    lemma_group_of_bytes(s, 4, group2(x) as nat, 1);
    lemma_group_of_bytes(s, 5, group3(x) as nat, 3);
    lemma_group_of_bytes(s, 8, group4(x) as nat, 3);
    lemma_group_of_bytes(s, 11, x.max_pdu as nat, 1);
    lemma_group_of_bytes(s, 12, x.rfu as nat, 1);
    lemma_group_of_bytes(s, 13, x.seed_access_address as nat, 4);
    lemma_group_of_bytes(s, 17, group8(x) as nat, 4);
    lemma_group_of_bytes(s, 21, x.base_crc_init as nat, 2);
    lemma_group_of_bytes(s, 23, group10(x) as nat, 5);
    lemma_group_of_bytes(s, 28, group11(x) as nat, 5);
    if let Ok(v) = r {
        if is_encrypted(x) {
            let g = x.giv->Some_0;
            let k = x.gskd->Some_0;
            assert(s.subrange(35, 43) =~= s.subrange(35, s.len() as int).subrange(0, 8));
            assert(s.subrange(35, 43) =~= g@);
            assert(s.subrange(43, 59) =~= k@);
            assert(v.giv->Some_0 =~= g);
            assert(v.gskd->Some_0 =~= k);
        }
    }
}

/// Encoding the decoding of a BIGInfo record gives the record back, and the
/// decoded value is well formed.
pub proof fn lemma_big_info_encode_decode(s: Seq<u8>, r: Result<BigInfo, DecodeError>)
    requires
        s.len() == s[0] + 1,
        s[1] == BIG_INFO_DATA_TYPE,
        BigInfo::decodes(s, r),
        r is Ok,
    ensures
        r matches Ok(v) && v.wire() == s && v.wf(),
{
    if let Ok(v) = r {
        lemma_group_reads(s, 0);
        lemma_record_at_zero(s);
        let g1 = group_at(s, 0, 4);
        let g2 = group_at(s, 4, 1);
        let g3 = group_at(s, 5, 3);
        let g4 = group_at(s, 8, 3);
        let g8 = group_at(s, 17, 4);
        let g10 = group_at(s, 23, 5);
        let g11 = group_at(s, 28, 5);
        lemma_bits_group1(0, 0, 0, 0, g1);
        lemma_bits_5_3(0, 0, g2);
        lemma_bits_20_4(0, 0, g3);
        lemma_bits_20_4(0, 0, g4);
        lemma_bits_20_12(0, 0, g8);
        lemma_bits_37_3(0, 0, g10);
        lemma_bits_39_1(0, 0, g11);
        assert(bit(v.big_offset_units) == (g1 >> 14u64) & 1);
        assert(bit(v.framing) == g11 >> 39u64);
        lemma_bytes_of_group(s, 0, 4);
        lemma_bytes_of_group(s, 4, 1);
        lemma_bytes_of_group(s, 5, 3);
        lemma_bytes_of_group(s, 8, 3);
        lemma_bytes_of_group(s, 11, 1);
        lemma_bytes_of_group(s, 12, 1);
        lemma_bytes_of_group(s, 13, 4);
        lemma_bytes_of_group(s, 17, 4);
        lemma_bytes_of_group(s, 21, 2);
        lemma_bytes_of_group(s, 23, 5);
        lemma_bytes_of_group(s, 28, 5);
        lemma_packed_fields_len(v);
        assert(packed_fields(v) =~= s.subrange(2, 35));
        assert(key_material(v) =~= s.subrange(35, s.len() as int));
        assert(v.wire() =~= s);
    }
}

/// Where each group of fields stands in the encoding.
proof fn lemma_wire_pieces(x: BigInfo)
    ensures
        x.wire().len() == 35 + key_material(x).len(),
        x.wire().subrange(2, 6) == le_bytes(group1(x) as nat, 4),
        x.wire().subrange(6, 7) == le_bytes(group2(x) as nat, 1),
        x.wire().subrange(7, 10) == le_bytes(group3(x) as nat, 3),
        x.wire().subrange(10, 13) == le_bytes(group4(x) as nat, 3),
        x.wire().subrange(13, 14) == le_bytes(x.max_pdu as nat, 1),
        x.wire().subrange(14, 15) == le_bytes(x.rfu as nat, 1),
        x.wire().subrange(15, 19) == le_bytes(x.seed_access_address as nat, 4),
        x.wire().subrange(19, 23) == le_bytes(group8(x) as nat, 4),
        x.wire().subrange(23, 25) == le_bytes(x.base_crc_init as nat, 2),
        x.wire().subrange(25, 30) == le_bytes(group10(x) as nat, 5),
        x.wire().subrange(30, 35) == le_bytes(group11(x) as nat, 5),
        x.wire().subrange(35, x.wire().len() as int) == key_material(x),
{
    let w = x.wire();
    lemma_le_bytes_len(group1(x) as nat, 4);
    lemma_le_bytes_len(group2(x) as nat, 1);
    lemma_le_bytes_len(group3(x) as nat, 3);
    lemma_le_bytes_len(group4(x) as nat, 3);
    lemma_le_bytes_len(x.max_pdu as nat, 1);
    lemma_le_bytes_len(x.rfu as nat, 1);
    lemma_le_bytes_len(x.seed_access_address as nat, 4);
    lemma_le_bytes_len(group8(x) as nat, 4);
    lemma_le_bytes_len(x.base_crc_init as nat, 2);
    lemma_le_bytes_len(group10(x) as nat, 5);
    lemma_le_bytes_len(group11(x) as nat, 5);
    assert(w.subrange(2, 6) =~= le_bytes(group1(x) as nat, 4));
    assert(w.subrange(6, 7) =~= le_bytes(group2(x) as nat, 1));
    assert(w.subrange(7, 10) =~= le_bytes(group3(x) as nat, 3));
    assert(w.subrange(10, 13) =~= le_bytes(group4(x) as nat, 3));
    assert(w.subrange(13, 14) =~= le_bytes(x.max_pdu as nat, 1));
    assert(w.subrange(14, 15) =~= le_bytes(x.rfu as nat, 1));
    assert(w.subrange(15, 19) =~= le_bytes(x.seed_access_address as nat, 4));
    assert(w.subrange(19, 23) =~= le_bytes(group8(x) as nat, 4));
    assert(w.subrange(23, 25) =~= le_bytes(x.base_crc_init as nat, 2));
    assert(w.subrange(25, 30) =~= le_bytes(group10(x) as nat, 5));
    assert(w.subrange(30, 35) =~= le_bytes(group11(x) as nat, 5));
    assert(w.subrange(35, w.len() as int) =~= key_material(x));
}

/// The group at `from .. from + n` of a record whose bytes there are those of
/// `value` reads as `value`.
proof fn lemma_group_of_bytes(s: Seq<u8>, from: int, value: nat, n: nat)
    requires
        0 <= from,
        2 + from + n <= s.len(),
        value < pow256(n),
        value < 0x1_0000_0000_0000_0000,
        s.subrange(2 + from, 2 + from + n) == le_bytes(value, n),
    ensures
        group_at(s, from, n) == value,
{
    lemma_le_value_of_bytes(value, n);
}

/// The bytes of a group are those of the integer it reads as.
proof fn lemma_bytes_of_group(s: Seq<u8>, from: int, n: nat)
    requires
        0 <= from,
        2 + from + n <= s.len(),
        n <= 5,
    ensures
        le_bytes(group_at(s, from, n) as nat, n) == s.subrange(2 + from, 2 + from + n),
{
    let p = s.subrange(2 + from, 2 + from + n);
    lemma_le_value_bound(p);
    lemma_pow256_small();
    lemma_pow256_mono(n, 5);
    lemma_le_bytes_of_value(p);
}

/// The groups that the decoder reads from `data` at `offset + 2` are those of
/// the record, and each fits in its bytes.
proof fn lemma_group_reads(data: Seq<u8>, offset: int)
    requires
        0 <= offset,
        offset + 35 <= data.len(),
    ensures
        ({
            let s = record_at(data, offset);
            let p = offset + 2;
            &&& forall|from: int, n: nat|
                0 <= from && from + n <= 33 ==> #[trigger] s.subrange(2 + from, 2 + from + n)
                    == data.subrange(p + from, p + from + n)
            &&& le_value(s.subrange(2, 6)) < 0x1_0000_0000
            &&& le_value(s.subrange(6, 7)) < 0x100
            &&& le_value(s.subrange(7, 10)) < 0x100_0000
            &&& le_value(s.subrange(10, 13)) < 0x100_0000
            &&& le_value(s.subrange(13, 14)) < 0x100
            &&& le_value(s.subrange(14, 15)) < 0x100
            &&& le_value(s.subrange(15, 19)) < 0x1_0000_0000
            &&& le_value(s.subrange(19, 23)) < 0x1_0000_0000
            &&& le_value(s.subrange(23, 25)) < 0x1_0000
            &&& le_value(s.subrange(25, 30)) < 0x100_0000_0000
            &&& le_value(s.subrange(30, 35)) < 0x100_0000_0000
        }),
{
    let s = record_at(data, offset);
    let p = offset + 2;
    assert forall|from: int, n: nat| 0 <= from && from + n <= 33 implies #[trigger] s.subrange(
        2 + from,
        2 + from + n,
    ) == data.subrange(p + from, p + from + n) by {
        assert(s.subrange(2 + from, 2 + from + n) =~= data.subrange(p + from, p + from + n));
    }
    lemma_pow256_small();
    lemma_le_value_bound(s.subrange(2, 6));
    lemma_le_value_bound(s.subrange(6, 7));
    lemma_le_value_bound(s.subrange(7, 10));
    lemma_le_value_bound(s.subrange(10, 13));
    lemma_le_value_bound(s.subrange(13, 14));
    lemma_le_value_bound(s.subrange(14, 15));
    lemma_le_value_bound(s.subrange(15, 19));
    lemma_le_value_bound(s.subrange(19, 23));
    lemma_le_value_bound(s.subrange(23, 25));
    lemma_le_value_bound(s.subrange(25, 30));
    lemma_le_value_bound(s.subrange(30, 35));
}

/// Packing the four fields of bytes 0..4 into 32 bits, and unpacking.
proof fn lemma_bits_group1(a: u64, b: u64, c: u64, d: u64, g: u64)
    by (bit_vector)
    ensures
        (a < 0x4000 && b < 2 && c < 0x1000 && d < 0x20) ==> (a | (b << 14u64) | (c << 15u64) | (d
            << 27u64)) < 0x1_0000_0000 && (a | (b << 14u64) | (c << 15u64) | (d << 27u64)) & 0x3fff
            == a && ((a | (b << 14u64) | (c << 15u64) | (d << 27u64)) >> 14u64) & 1 == b && ((a | (b
            << 14u64) | (c << 15u64) | (d << 27u64)) >> 15u64) & 0xfff == c && (a | (b << 14u64) | (c
            << 15u64) | (d << 27u64)) >> 27u64 == d,
        g < 0x1_0000_0000 ==> (g & 0x3fff) | (((g >> 14u64) & 1) << 14u64) | (((g >> 15u64) & 0xfff)
            << 15u64) | ((g >> 27u64) << 27u64) == g && g & 0x3fff < 0x4000 && (g >> 14u64) & 1 < 2
            && (g >> 15u64) & 0xfff < 0x1000 && g >> 27u64 < 0x20,
{
}

/// Packing a 5-bit and a 3-bit field into 8 bits, and unpacking.
proof fn lemma_bits_5_3(a: u64, b: u64, g: u64)
    by (bit_vector)
    ensures
        (a < 0x20 && b < 0x8) ==> (a | (b << 5u64)) < 0x100 && (a | (b << 5u64)) & 0x1f == a && (a
            | (b << 5u64)) >> 5u64 == b,
        g < 0x100 ==> (g & 0x1f) | ((g >> 5u64) << 5u64) == g && g & 0x1f < 0x20 && g >> 5u64 < 0x8,
{
}

/// Packing a 20-bit and a 4-bit field into 24 bits, and unpacking.
proof fn lemma_bits_20_4(a: u64, b: u64, g: u64)
    by (bit_vector)
    ensures
        (a < 0x10_0000 && b < 0x10) ==> (a | (b << 20u64)) < 0x100_0000 && (a | (b << 20u64))
            & 0xfffff == a && (a | (b << 20u64)) >> 20u64 == b,
        g < 0x100_0000 ==> (g & 0xfffff) | ((g >> 20u64) << 20u64) == g && g & 0xfffff < 0x10_0000
            && g >> 20u64 < 0x10,
{
}

/// Packing a 20-bit and a 12-bit field into 32 bits, and unpacking.
proof fn lemma_bits_20_12(a: u64, b: u64, g: u64)
    by (bit_vector)
    ensures
        (a < 0x10_0000 && b < 0x1000) ==> (a | (b << 20u64)) < 0x1_0000_0000 && (a | (b << 20u64))
            & 0xfffff == a && (a | (b << 20u64)) >> 20u64 == b,
        g < 0x1_0000_0000 ==> (g & 0xfffff) | ((g >> 20u64) << 20u64) == g && g & 0xfffff
            < 0x10_0000 && g >> 20u64 < 0x1000,
{
}

/// Packing a 37-bit and a 3-bit field into 40 bits, and unpacking.
proof fn lemma_bits_37_3(a: u64, b: u64, g: u64)
    by (bit_vector)
    ensures
        (a < 0x20_0000_0000 && b < 0x8) ==> (a | (b << 37u64)) < 0x100_0000_0000 && (a | (b
            << 37u64)) & 0x1f_ffff_ffff == a && (a | (b << 37u64)) >> 37u64 == b,
        g < 0x100_0000_0000 ==> (g & 0x1f_ffff_ffff) | ((g >> 37u64) << 37u64) == g && g
            & 0x1f_ffff_ffff < 0x20_0000_0000 && g >> 37u64 < 0x8,
{
}

/// Packing a 39-bit and a 1-bit field into 40 bits, and unpacking.
proof fn lemma_bits_39_1(a: u64, b: u64, g: u64)
    by (bit_vector)
    ensures
        (a < 0x80_0000_0000 && b < 0x2) ==> (a | (b << 39u64)) < 0x100_0000_0000 && (a | (b
            << 39u64)) & 0x7f_ffff_ffff == a && (a | (b << 39u64)) >> 39u64 == b,
        g < 0x100_0000_0000 ==> (g & 0x7f_ffff_ffff) | ((g >> 39u64) << 39u64) == g && g
            & 0x7f_ffff_ffff < 0x80_0000_0000 && g >> 39u64 < 0x2,
{
}

proof fn lemma_packed_fields_len(x: BigInfo)
    ensures
        packed_fields(x).len() == 33,
{
    lemma_le_bytes_len(group1(x) as nat, 4);
    lemma_le_bytes_len(group2(x) as nat, 1);
    lemma_le_bytes_len(group3(x) as nat, 3);
    lemma_le_bytes_len(group4(x) as nat, 3);
    lemma_le_bytes_len(x.max_pdu as nat, 1);
    lemma_le_bytes_len(x.rfu as nat, 1);
    lemma_le_bytes_len(x.seed_access_address as nat, 4);
    lemma_le_bytes_len(group8(x) as nat, 4);
    lemma_le_bytes_len(x.base_crc_init as nat, 2);
    lemma_le_bytes_len(group10(x) as nat, 5);
    lemma_le_bytes_len(group11(x) as nat, 5);
}

} // verus!
