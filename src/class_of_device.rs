//! Class of Device (data type 0x0d): a 24-bit value made of the major service classes, the major device class and the minor device class, each under a fixed mask.

use crate::error::DecodeError;
use crate::record::{
    decode_fixed, fixed_size_error, fixed_wire, lemma_fixed_decode_wire, lemma_fixed_wire_decode,
    lemma_record_at_zero, record_at,
};
use crate::wire::{le_value, lemma_le_bytes_len, lemma_le_value_bound, lemma_pow256_small, push_le};
use vstd::prelude::*;

verus! {

/// Type tag of [`ClassOfDevice`].
pub const CLASS_OF_DEVICE_DATA_TYPE: u8 = 0x0d;

/// Class of Device.
#[derive(Debug)]
pub struct ClassOfDevice {
    /// Declared length: the number of bytes after the length byte.
    pub length: u8,
    /// Class of device; only the low 24 bits are carried on the air.
    pub class_of_device: u32,
}

impl ClassOfDevice {
    /// The declared length is the one of the layout, and the value fits in 24 bits.
    pub open spec fn wf(&self) -> bool {
        self.length == 4 && self.class_of_device < 0x100_0000
    }

    /// The record that encodes `self`: its declared length is always 4.
    pub open spec fn wire(&self) -> Seq<u8> {
        fixed_wire(4u8, CLASS_OF_DEVICE_DATA_TYPE, self.class_of_device as nat, 3)
    }

    /// What decoding the record `s` gives.
    pub open spec fn decoded(s: Seq<u8>) -> Result<ClassOfDevice, DecodeError> {
        match fixed_size_error(s, 5, CLASS_OF_DEVICE_DATA_TYPE) {
            Some(e) => Err(e),
            None => Ok(ClassOfDevice { length: s[0], class_of_device: le_value(s.subrange(2, 5)) as u32 }),
        }
    }

    /// Creates a record holding `class_of_device`.
    pub fn new(class_of_device: u32) -> (r: Self)
        ensures
            r.length == 4,
            r.class_of_device == class_of_device,
    {
        Self { length: 4, class_of_device }
    }

    /// Decodes the record that starts at `offset` in `data`.
    pub fn from_with_offset(data: &Vec<u8>, offset: usize) -> (r: Result<Self, DecodeError>)
        ensures
            r == Self::decoded(record_at(data@, offset as int)),
    {
        match decode_fixed(data, offset, 3, CLASS_OF_DEVICE_DATA_TYPE) {
            Ok((length, value)) => {
                proof {
                    lemma_le_value_bound(record_at(data@, offset as int).subrange(2, 5));
                    lemma_pow256_small();
                }
                Ok(Self { length, class_of_device: value as u32 })
            },
            Err(e) => Err(e),
        }
    }

    /// Decodes the record at the start of `data`.
    pub fn try_from(data: &Vec<u8>) -> (r: Result<Self, DecodeError>)
        ensures
            r == Self::decoded(data@),
    {
        proof {
            lemma_record_at_zero(data@);
        }
        Self::from_with_offset(data, 0)
    }

    /// The major service classes: the value under its mask.
    pub fn major_service_classes(&self) -> (r: u32)
        ensures
            r == self.class_of_device & CLASS_OF_DEVICE_MAJOR_SERVICE_CLASSES_MASK,
    {
        self.class_of_device & CLASS_OF_DEVICE_MAJOR_SERVICE_CLASSES_MASK
    }

    /// The major device class: the value under its mask.
    pub fn major_device_class(&self) -> (r: u32)
        ensures
            r == self.class_of_device & CLASS_OF_DEVICE_MAJOR_DEVICE_CLASS_MASK,
    {
        self.class_of_device & CLASS_OF_DEVICE_MAJOR_DEVICE_CLASS_MASK
    }

    /// The minor device class: the value under its mask.
    pub fn minor_device_class(&self) -> (r: u32)
        ensures
            r == self.class_of_device & CLASS_OF_DEVICE_MINOR_DEVICE_CLASS_MASK,
    {
        self.class_of_device & CLASS_OF_DEVICE_MINOR_DEVICE_CLASS_MASK
    }

    /// Encodes the record: length byte, tag, value little-endian.
    pub fn encode(&self) -> (r: Vec<u8>)
        ensures
            r@ == self.wire(),
            r@.len() == r@[0] + 1,
            r@[1] == CLASS_OF_DEVICE_DATA_TYPE,
    {
        let mut data: Vec<u8> = Vec::new();
        data.push(4u8);
        data.push(CLASS_OF_DEVICE_DATA_TYPE);
        push_le(&mut data, self.class_of_device as u128, 3);
        proof {
            lemma_le_bytes_len(self.class_of_device as nat, 3);
            assert(data@ =~= self.wire());
        }
        data
    }

    /// The type tag, `0x0d`.
    pub fn data_type() -> (r: u8)
        ensures
            r == CLASS_OF_DEVICE_DATA_TYPE,
    {
        CLASS_OF_DEVICE_DATA_TYPE
    }
}

/// Whether `data_type` is the tag of [`ClassOfDevice`].
pub fn is_class_of_device(data_type: u8) -> (r: bool)
    ensures
        r == (data_type == CLASS_OF_DEVICE_DATA_TYPE),
{
    data_type == CLASS_OF_DEVICE_DATA_TYPE
}

/// Decoding the encoding of a well-formed value gives it back.
pub proof fn lemma_class_of_device_decode_encode(x: ClassOfDevice)
    requires
        x.wf(),
    ensures
        ClassOfDevice::decoded(x.wire()) == Ok::<ClassOfDevice, DecodeError>(x),
{
    lemma_pow256_small();
    lemma_fixed_decode_wire(x.length, CLASS_OF_DEVICE_DATA_TYPE, x.class_of_device as nat, 3);
}

/// Encoding the decoding of a record gives the record back.
pub proof fn lemma_class_of_device_encode_decode(s: Seq<u8>)
    requires
        s.len() == s[0] + 1,
        s[1] == CLASS_OF_DEVICE_DATA_TYPE,
        ClassOfDevice::decoded(s) is Ok,
    ensures
        ClassOfDevice::decoded(s) matches Ok(v) && v.wire() == s,
{
    lemma_fixed_wire_decode(s, CLASS_OF_DEVICE_DATA_TYPE, 3);
    lemma_pow256_small();
}

/// Major Service Classes mask.
pub const CLASS_OF_DEVICE_MAJOR_SERVICE_CLASSES_MASK: u32 = 0b11111111_11100000_00000000;

/// Major Device Class mask.
pub const CLASS_OF_DEVICE_MAJOR_DEVICE_CLASS_MASK: u32 = 0b00000000_00011111_00000000;

/// Minor Device Class mask.
pub const CLASS_OF_DEVICE_MINOR_DEVICE_CLASS_MASK: u32 = 0b00000000_00000000_11111100;

/// A class of device made of one component under each of the three masks
/// gives each component back under its mask.
pub proof fn lemma_class_of_device_components(service: u32, major: u32, minor: u32)
    requires
        service & CLASS_OF_DEVICE_MAJOR_SERVICE_CLASSES_MASK == service,
        major & CLASS_OF_DEVICE_MAJOR_DEVICE_CLASS_MASK == major,
        minor & CLASS_OF_DEVICE_MINOR_DEVICE_CLASS_MASK == minor,
    ensures
        (service | major | minor) & CLASS_OF_DEVICE_MAJOR_SERVICE_CLASSES_MASK == service,
        (service | major | minor) & CLASS_OF_DEVICE_MAJOR_DEVICE_CLASS_MASK == major,
        (service | major | minor) & CLASS_OF_DEVICE_MINOR_DEVICE_CLASS_MASK == minor,
        (service | major | minor) < 0x100_0000,
{
    assert({
        &&& (service | major | minor) & 0xffe000 == service
        &&& (service | major | minor) & 0x1f00 == major
        &&& (service | major | minor) & 0xfc == minor
        &&& (service | major | minor) < 0x100_0000
    }) by (bit_vector)
        requires
            service & 0xffe000 == service,
            major & 0x1f00 == major,
            minor & 0xfc == minor,
    ;
}

} // verus!
