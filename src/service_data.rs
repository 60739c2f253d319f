//! Service data records: the short form of a service UUID followed by
//! opaque data of any length.

use crate::ble_uuid::{
    is_short, lemma_overlay_of_short_form, lemma_short_form_of_overlay, overlay, short_form,
    BleUuid,
};
use crate::error::DecodeError;
use crate::record::{check_variable_size, copy_range, record_at, variable_size_error};
use vstd::prelude::*;

verus! {

/// `uuid` and `rest` are what the service data record `s` with `w`-byte UUIDs
/// holds: the UUID that its short form stands for, and the bytes after it up
/// to the declared length.
pub open spec fn service_data_matches(s: Seq<u8>, w: nat, uuid: Seq<u8>, rest: Seq<u8>) -> bool {
    &&& uuid == overlay(s.subrange(2, 2 + w as int))
    &&& rest == s.subrange(2 + w as int, s[0] + 1)
}

/// The record of service data: length byte, tag, short form of the UUID, data.
pub open spec fn service_data_wire(length: u8, tag: u8, uuid: Seq<u8>, w: nat, rest: Seq<u8>) -> Seq<u8> {
    seq![length, tag] + short_form(uuid, w) + rest
}

/// Decodes the service data record that starts at `offset`; gives the
/// declared length, the UUID and the data.
pub fn decode_service_data(data: &Vec<u8>, offset: usize, w: usize, tag: u8) -> (r: Result<
    (u8, BleUuid, Vec<u8>),
    DecodeError,
>)
    requires
        w == 2 || w == 4,
    ensures
        ({
            let s = record_at(data@, offset as int);
            match variable_size_error(s, (w + 2) as nat) {
                Some(e) => r == Err::<(u8, BleUuid, Vec<u8>), DecodeError>(e),
                None => r matches Ok((length, uuid, rest)) && length == s[0]
                    && service_data_matches(s, w as nat, uuid.bytes@, rest@),
            }
        }),
{
    if let Some(e) = check_variable_size(data, offset, w + 2) {
        return Err(e);
    }
    let ghost s = record_at(data@, offset as int);
    let len = data.len();
    let length = data[offset];
    let uuid = BleUuid::from_short(data, offset + 2, w);
    let rest = copy_range(data, offset + 2 + w, offset + 1 + length as usize);
    proof {
        assert(data@.subrange(offset + 2, offset + 2 + w) =~= s.subrange(2, 2 + w as int));
        assert(rest@ =~= s.subrange(2 + w as int, s[0] + 1));
    }
    Ok((length, uuid, rest))
}

/// A service data record built from a UUID made from the Base UUID, with the
/// right length, decodes to that UUID and data.
pub proof fn lemma_service_data_decode_wire(length: u8, tag: u8, uuid: Seq<u8>, w: nat, rest: Seq<u8>)
    requires
        w == 2 || w == 4,
        is_short(uuid, w),
        length == 1 + w + rest.len(),
    ensures
        variable_size_error(service_data_wire(length, tag, uuid, w, rest), w + 2) is None,
        service_data_wire(length, tag, uuid, w, rest)[0] == length,
        service_data_wire(length, tag, uuid, w, rest)[1] == tag,
        service_data_wire(length, tag, uuid, w, rest).len() == length + 1,
        service_data_matches(service_data_wire(length, tag, uuid, w, rest), w, uuid, rest),
{
    let s = service_data_wire(length, tag, uuid, w, rest);
    assert(s.subrange(2, 2 + w as int) =~= short_form(uuid, w));
    assert(s.subrange(2 + w as int, s[0] + 1) =~= rest);
    lemma_overlay_of_short_form(uuid, w);
}

/// A service data record that passes the checks, with the type's tag, is
/// rebuilt from what it decodes to.
pub proof fn lemma_service_data_wire_decode(s: Seq<u8>, tag: u8, w: nat, uuid: Seq<u8>, rest: Seq<u8>)
    requires
        w == 2 || w == 4,
        variable_size_error(s, w + 2) is None,
        s.len() == s[0] + 1,
        s[1] == tag,
        service_data_matches(s, w, uuid, rest),
    ensures
        service_data_wire(s[0], tag, uuid, w, rest) == s,
        is_short(uuid, w),
        s[0] == 1 + w + rest.len(),
{
    lemma_short_form_of_overlay(s.subrange(2, 2 + w as int));
    assert(service_data_wire(s[0], tag, uuid, w, rest) =~= s);
}

} // verus!
