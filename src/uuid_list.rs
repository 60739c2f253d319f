//! Lists of UUIDs: a payload that repeats a fixed-width element with no
//! delimiter. Elements of 2 and 4 bytes are short forms of UUIDs made from
//! the Base UUID; elements of 16 bytes are whole UUIDs written little-endian.

use crate::ble_uuid::{
    is_short, lemma_overlay_of_short_form, lemma_short_form_of_overlay, overlay, reversed16,
    short_form, BleUuid,
};
use crate::error::DecodeError;
use crate::record::{check_variable_size, record_at, variable_size_error};
use vstd::prelude::*;

verus! {

/// The UUID that a `w`-byte element stands for.
pub open spec fn element_uuid(e: Seq<u8>, w: nat) -> Seq<u8> {
    if w == 16 {
        reversed16(e)
    } else {
        overlay(e)
    }
}

/// The `w` bytes that carry the UUID `u` in a list.
pub open spec fn element_bytes(u: Seq<u8>, w: nat) -> Seq<u8> {
    if w == 16 {
        reversed16(u)
    } else {
        short_form(u, w)
    }
}

/// The UUID `u` can be carried by a `w`-byte element: any UUID in 16 bytes,
/// only one made from the Base UUID in a short form.
pub open spec fn fits_element(u: Seq<u8>, w: nat) -> bool {
    if w == 16 {
        u.len() == 16
    } else {
        is_short(u, w)
    }
}

/// The element width is one that lists use.
pub open spec fn is_width(w: nat) -> bool {
    w == 2 || w == 4 || w == 16
}

/// The payload bytes of a list of the UUIDs `us`, in order.
pub open spec fn list_bytes(us: Seq<BleUuid>, w: nat) -> Seq<u8>
    decreases us.len(),
{
    if us.len() == 0 {
        Seq::empty()
    } else {
        list_bytes(us.drop_last(), w) + element_bytes(us.last().bytes@, w)
    }
}

/// The size check of a list record: the record checks, and then a payload
/// that is a whole number of elements.
pub open spec fn list_error(s: Seq<u8>, w: nat, tag: u8) -> Option<DecodeError> {
    match variable_size_error(s, w + 2) {
        Some(e) => Some(e),
        None => if (s[0] - 1) % (w as int) != 0 {
            Some(DecodeError::InvalidFieldEncoding { data_type: tag, length: s[0] })
        } else {
            None
        },
    }
}

/// The `i`-th element of the list record `s`.
pub open spec fn element_at(s: Seq<u8>, w: nat, i: int) -> Seq<u8> {
    s.subrange(2 + w * i, 2 + w * i + w)
}

/// `us` are the UUIDs that the elements of the record `s` stand for, in order.
pub open spec fn list_matches(s: Seq<u8>, w: nat, us: Seq<BleUuid>) -> bool {
    &&& us.len() * w == s[0] - 1
    &&& forall|i: int| 0 <= i < us.len() ==> #[trigger] us[i].bytes@ == element_uuid(element_at(s, w, i), w)
}

proof fn lemma_element_uuid_of_bytes(u: Seq<u8>, w: nat)
    requires
        is_width(w),
        fits_element(u, w),
    ensures
        element_uuid(element_bytes(u, w), w) == u,
{
    if w == 16 {
        assert(reversed16(reversed16(u)) =~= u);
    } else {
        lemma_overlay_of_short_form(u, w);
    }
}

proof fn lemma_element_bytes_of_uuid(e: Seq<u8>, w: nat)
    requires
        is_width(w),
        e.len() == w,
    ensures
        element_bytes(element_uuid(e, w), w) == e,
        fits_element(element_uuid(e, w), w),
        element_bytes(element_uuid(e, w), w).len() == w,
{
    if w == 16 {
        assert(reversed16(reversed16(e)) =~= e);
    } else {
        lemma_short_form_of_overlay(e);
    }
}

/// The list bytes are the elements one after the other.
proof fn lemma_list_bytes_chunks(us: Seq<BleUuid>, w: nat)
    requires
        is_width(w),
    ensures
        list_bytes(us, w).len() == w * us.len(),
        forall|i: int|
            0 <= i < us.len() ==> #[trigger] list_bytes(us, w).subrange(w * i, w * i + w)
                == element_bytes(us[i].bytes@, w),
    decreases us.len(),
{
    if us.len() > 0 {
        let n = us.len();
        let init = us.drop_last();
        lemma_list_bytes_chunks(init, w);
        let b = list_bytes(us, w);
        let e = element_bytes(us.last().bytes@, w);
        assert(e.len() == w);
        assert(w * (n - 1) + w == w * n) by (nonlinear_arith);
        assert forall|i: int| 0 <= i < us.len() implies #[trigger] b.subrange(w * i, w * i + w)
            == element_bytes(us[i].bytes@, w) by {
            if i < n - 1 {
                assert(w * i + w <= w * (n - 1)) by (nonlinear_arith)
                    requires
                        i < n - 1,
                ;
                assert(init[i] == us[i]);
                assert(b.subrange(w * i, w * i + w) =~= list_bytes(init, w).subrange(w * i, w * i + w));
            } else {
                assert(b.subrange(w * i, w * i + w) =~= e);
            }
        }
    }
}

/// Bytes that are, chunk by chunk, the elements of `us` are the list bytes of `us`.
proof fn lemma_list_bytes_of_chunks(p: Seq<u8>, us: Seq<BleUuid>, w: nat)
    requires
        is_width(w),
        p.len() == w * us.len(),
        forall|i: int|
            0 <= i < us.len() ==> p.subrange(w * i, w * i + w) == #[trigger] element_bytes(
                us[i].bytes@,
                w,
            ),
    ensures
        list_bytes(us, w) == p,
    decreases us.len(),
{
    if us.len() > 0 {
        let n = us.len();
        let init = us.drop_last();
        let q = p.subrange(0, w * (n - 1));
        assert(w * (n - 1) + w == w * n) by (nonlinear_arith);
        assert(w * (n - 1) >= 0) by (nonlinear_arith)
            requires
                n >= 1,
        ;
        assert forall|i: int| 0 <= i < init.len() implies q.subrange(w * i, w * i + w)
            == #[trigger] element_bytes(init[i].bytes@, w) by {
            assert(w * i + w <= w * (n - 1)) by (nonlinear_arith)
                requires
                    i < n - 1,
            ;
            assert(init[i] == us[i]);
            assert(q.subrange(w * i, w * i + w) =~= p.subrange(w * i, w * i + w));
            assert(p.subrange(w * i, w * i + w) == element_bytes(us[i].bytes@, w));
        }
        lemma_list_bytes_of_chunks(q, init, w);
        assert(p.subrange(w * (n - 1), w * (n - 1) + w) == element_bytes(us[n - 1].bytes@, w));
        assert(p =~= q + p.subrange(w * (n - 1), w * n as int));
    }
}

/// Decodes the elements of the list record that starts at `offset`; gives the
/// declared length and the UUIDs.
pub fn decode_list(data: &Vec<u8>, offset: usize, w: usize, tag: u8) -> (r: Result<
    (u8, Vec<BleUuid>),
    DecodeError,
>)
    requires
        is_width(w as nat),
    ensures
        ({
            let s = record_at(data@, offset as int);
            match list_error(s, w as nat, tag) {
                Some(e) => r == Err::<(u8, Vec<BleUuid>), DecodeError>(e),
                None => r matches Ok((length, us)) && length == s[0] && list_matches(
                    s,
                    w as nat,
                    us@,
                ),
            }
        }),
{
    let ghost s = record_at(data@, offset as int);
    if let Some(e) = check_variable_size(data, offset, w + 2) {
        return Err(e);
    }
    let length = data[offset];
    if (length as usize - 1) % w != 0 {
        return Err(DecodeError::InvalidFieldEncoding { data_type: tag, length });
    }
    let len = data.len();
    let count = (length as usize - 1) / w;
    assert(count * w == length - 1) by (nonlinear_arith)
        requires
            count == (length - 1) / (w as int),
            (length - 1) % (w as int) == 0,
            w > 0,
    ;
    let mut us: Vec<BleUuid> = Vec::new();
    let mut i: usize = 0;
    while i < count
        invariant
            is_width(w as nat),
            s == record_at(data@, offset as int),
            data@.len() == len,
            offset + 1 + length <= len,
            length == s[0],
            count * w == length - 1,
            i <= count,
            us@.len() == i,
            forall|j: int| 0 <= j < i ==> #[trigger] us@[j].bytes@ == element_uuid(element_at(s, w as nat, j), w as nat),
        decreases count - i,
    {
        assert(w * i + w <= length - 1) by (nonlinear_arith)
            requires
                i < count,
                count * w == length - 1,
        ;
        let start = offset + 2 + w * i;
        let u = if w == 16 {
            BleUuid::from_le_bytes(data, start)
        } else {
            BleUuid::from_short(data, start, w)
        };
        proof {
            assert(data@.subrange(start as int, start + w) =~= element_at(s, w as nat, i as int));
        }
        us.push(u);
        i = i + 1;
    }
    Ok((length, us))
}

/// Appends the list bytes of `us` to `out`.
pub fn push_list(out: &mut Vec<u8>, us: &Vec<BleUuid>, w: usize)
    requires
        is_width(w as nat),
    ensures
        final(out)@ == old(out)@ + list_bytes(us@, w as nat),
{
    let mut i: usize = 0;
    proof {
        assert(us@.subrange(0, 0).len() == 0);
        assert(old(out)@ + list_bytes(us@.subrange(0, 0), w as nat) =~= out@);
    }
    while i < us.len()
        invariant
            is_width(w as nat),
            i <= us@.len(),
            out@ == old(out)@ + list_bytes(us@.subrange(0, i as int), w as nat),
        decreases us@.len() - i,
    {
        let ghost before = out@;
        let u = us[i];
        if w == 16 {
            u.push_le_bytes(out);
        } else {
            u.push_short(out, w);
        }
        proof {
            let next = us@.subrange(0, i + 1);
            assert(next.drop_last() =~= us@.subrange(0, i as int));
            assert(next.last() == u);
            assert(out@ =~= old(out)@ + list_bytes(next, w as nat));
        }
        i = i + 1;
    }
    proof {
        assert(us@.subrange(0, us@.len() as int) =~= us@);
    }
}

/// The record of a list of the UUIDs `us`: length byte, tag, elements.
pub open spec fn list_wire(length: u8, tag: u8, us: Seq<BleUuid>, w: nat) -> Seq<u8> {
    seq![length, tag] + list_bytes(us, w)
}

/// A list record is two bytes longer than its elements.
pub proof fn lemma_list_wire_len(length: u8, tag: u8, us: Seq<BleUuid>, w: nat)
    requires
        is_width(w),
    ensures
        list_wire(length, tag, us, w).len() == 2 + w * us.len(),
        list_wire(length, tag, us, w)[0] == length,
        list_wire(length, tag, us, w)[1] == tag,
{
    lemma_list_bytes_chunks(us, w);
}

/// A list record built from UUIDs that fit, with the right length, decodes
/// to those UUIDs.
pub proof fn lemma_list_decode_wire(length: u8, tag: u8, us: Seq<BleUuid>, w: nat)
    requires
        is_width(w),
        us.len() >= 1,
        length == us.len() * w + 1,
        forall|i: int| 0 <= i < us.len() ==> fits_element(#[trigger] us[i].bytes@, w),
    ensures
        list_error(list_wire(length, tag, us, w), w, tag) is None,
        list_wire(length, tag, us, w)[0] == length,
        list_wire(length, tag, us, w)[1] == tag,
        list_wire(length, tag, us, w).len() == length + 1,
        list_matches(list_wire(length, tag, us, w), w, us),
{
    let s = list_wire(length, tag, us, w);
    let b = list_bytes(us, w);
    lemma_list_bytes_chunks(us, w);
    assert(us.len() * w == w * us.len()) by (nonlinear_arith);
    assert(us.len() * w >= w) by (nonlinear_arith)
        requires
            us.len() >= 1,
    ;
    assert(((us.len() * w) as int) % (w as int) == 0) by (nonlinear_arith)
        requires
            w > 0,
    ;
    assert forall|i: int| 0 <= i < us.len() implies #[trigger] us[i].bytes@ == element_uuid(
        element_at(s, w, i),
        w,
    ) by {
        assert(w * i + w <= w * us.len()) by (nonlinear_arith)
            requires
                i < us.len(),
        ;
        assert(w * i >= 0) by (nonlinear_arith)
            requires
                i >= 0,
        ;
        assert(element_at(s, w, i) =~= b.subrange(w * i, w * i + w));
        lemma_element_uuid_of_bytes(us[i].bytes@, w);
    }
}

/// A list record that passes the checks, with the type's tag, is rebuilt from
/// the UUIDs it decodes to.
pub proof fn lemma_list_wire_decode(s: Seq<u8>, tag: u8, us: Seq<BleUuid>, w: nat)
    requires
        is_width(w),
        list_error(s, w, tag) is None,
        s.len() == s[0] + 1,
        s[1] == tag,
        list_matches(s, w, us),
    ensures
        list_wire(s[0], tag, us, w) == s,
        us.len() >= 1,
        forall|i: int| 0 <= i < us.len() ==> fits_element(#[trigger] us[i].bytes@, w),
{
    let p = s.subrange(2, s.len() as int);
    assert(us.len() * w == w * us.len()) by (nonlinear_arith);
    assert forall|i: int| 0 <= i < us.len() implies p.subrange(w * i, w * i + w)
        == #[trigger] element_bytes(us[i].bytes@, w) by {
        assert(w * i + w <= w * us.len()) by (nonlinear_arith)
            requires
                i < us.len(),
        ;
        assert(w * i >= 0) by (nonlinear_arith)
            requires
                i >= 0,
        ;
        assert(p.subrange(w * i, w * i + w) =~= element_at(s, w, i));
        lemma_element_bytes_of_uuid(element_at(s, w, i), w);
    }
    assert forall|i: int| 0 <= i < us.len() implies fits_element(#[trigger] us[i].bytes@, w) by {
        assert(w * i + w <= w * us.len()) by (nonlinear_arith)
            requires
                i < us.len(),
        ;
        assert(w * i >= 0) by (nonlinear_arith)
            requires
                i >= 0,
        ;
        lemma_element_bytes_of_uuid(element_at(s, w, i), w);
    }
    lemma_list_bytes_of_chunks(p, us, w);
    assert(us.len() >= 1) by (nonlinear_arith)
        requires
            us.len() * w == s[0] - 1,
            s[0] - 1 >= w,
            w > 0,
    ;
    assert(list_wire(s[0], tag, us, w) =~= s);
}

} // verus!
