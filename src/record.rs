//! Where a record starts in a buffer, and the size checks that every decoder
//! makes before it reads a field.

use crate::error::DecodeError;
use crate::wire::{
    le_bytes, le_value, lemma_le_bytes_len, lemma_le_bytes_of_value, lemma_le_value_bound,
    lemma_le_value_of_bytes, pow256, read_le,
};
use vstd::prelude::*;

verus! {

/// The bytes of `data` from `offset` on: the record that a decoder reads
/// (empty where `offset` lies past the end).
pub open spec fn record_at(data: Seq<u8>, offset: int) -> Seq<u8> {
    if 0 <= offset <= data.len() {
        data.subrange(offset, data.len() as int)
    } else {
        Seq::empty()
    }
}

/// The size check of a type whose record is always `size` bytes long, length
/// byte included: too few bytes present, or a declared length that is not
/// `size - 1`.
pub open spec fn fixed_size_error(s: Seq<u8>, size: nat, tag: u8) -> Option<DecodeError> {
    if s.len() < size {
        Some(DecodeError::BufferTooShort(s.len() as usize))
    } else if s[0] as nat + 1 != size {
        Some(DecodeError::InvalidFieldEncoding { data_type: tag, length: s[0] })
    } else {
        None
    }
}

/// The size check of a type whose record is at least `min` bytes long:
/// too few bytes present, a declared length that runs past the bytes present,
/// or a declared length too short for the type's fields (the error then holds
/// the size of the record as declared).
pub open spec fn variable_size_error(s: Seq<u8>, min: nat) -> Option<DecodeError> {
    if s.len() < min {
        Some(DecodeError::BufferTooShort(s.len() as usize))
    } else if s[0] as nat + 1 > s.len() {
        Some(DecodeError::BufferTooShort(s.len() as usize))
    } else if s[0] as nat + 1 < min {
        Some(DecodeError::BufferTooShort((s[0] + 1) as usize))
    } else {
        None
    }
}

/// The payload of a record: what follows the tag, up to the declared length.
pub open spec fn payload(s: Seq<u8>) -> Seq<u8> {
    s.subrange(2, s[0] as int + 1)
}

pub proof fn lemma_record_at_zero(data: Seq<u8>)
    ensures
        record_at(data, 0) == data,
{
    assert(data.subrange(0, data.len() as int) =~= data);
}

/// The number of bytes from `offset` to the end of `data`.
pub fn available(data: &Vec<u8>, offset: usize) -> (r: usize)
    ensures
        r == record_at(data@, offset as int).len(),
{
    if offset <= data.len() {
        data.len() - offset
    } else {
        0
    }
}

/// Runs the size check of a fixed-size type on the record at `offset`.
pub fn check_fixed_size(data: &Vec<u8>, offset: usize, size: usize, tag: u8) -> (r: Option<
    DecodeError,
>)
    requires
        size >= 1,
    ensures
        r == fixed_size_error(record_at(data@, offset as int), size as nat, tag),
{
    let avail = available(data, offset);
    if avail < size {
        return Some(DecodeError::BufferTooShort(avail));
    }
    let length = data[offset];
    if length as usize + 1 != size {
        return Some(DecodeError::InvalidFieldEncoding { data_type: tag, length });
    }
    None
}

/// Runs the size check of a variable-size type on the record at `offset`.
pub fn check_variable_size(data: &Vec<u8>, offset: usize, min: usize) -> (r: Option<
    DecodeError,
>)
    requires
        min >= 1,
    ensures
        r == variable_size_error(record_at(data@, offset as int), min as nat),
{
    let avail = available(data, offset);
    if avail < min {
        return Some(DecodeError::BufferTooShort(avail));
    }
    let length = data[offset];
    if length as usize + 1 > avail {
        return Some(DecodeError::BufferTooShort(avail));
    }
    if (length as usize + 1) < min {
        return Some(DecodeError::BufferTooShort(length as usize + 1));
    }
    None
}

/// A copy of the bytes `data[start .. end]`.
pub fn copy_range(data: &Vec<u8>, start: usize, end: usize) -> (r: Vec<u8>)
    requires
        start <= end <= data@.len(),
    ensures
        r@ == data@.subrange(start as int, end as int),
{
    let mut out: Vec<u8> = Vec::new();
    let mut i: usize = start;
    while i < end
        invariant
            start <= i <= end,
            end <= data@.len(),
            out@ == data@.subrange(start as int, i as int),
        decreases end - i,
    {
        out.push(data[i]);
        i = i + 1;
        proof {
            assert(out@ =~= data@.subrange(start as int, i as int));
        }
    }
    out
}

/// A copy of the `N` bytes of `data` from `start` on, as an array.
pub fn copy_array<const N: usize>(data: &Vec<u8>, start: usize) -> (r: [u8; N])
    requires
        start + N <= data@.len(),
    ensures
        r@ == data@.subrange(start as int, start + N),
{
    let len = data.len();
    let mut out = [0u8; N];
    let mut i: usize = 0;
    while i < N
        invariant
            i <= N,
            start + N <= data@.len(),
            data@.len() == len,
            out@.len() == N,
            forall|j: int| 0 <= j < i ==> out@[j] == data@[start + j],
        decreases N - i,
    {
        out[i] = data[start + i];
        i = i + 1;
    }
    proof {
        assert(out@ =~= data@.subrange(start as int, start + N));
    }
    out
}

/// Appends the bytes of the array `src` to `out`.
pub fn push_array<const N: usize>(out: &mut Vec<u8>, src: &[u8; N])
    ensures
        final(out)@ == old(out)@ + src@,
{
    let mut i: usize = 0;
    while i < N
        invariant
            i <= N,
            src@.len() == N,
            out@ == old(out)@ + src@.subrange(0, i as int),
        decreases N - i,
    {
        out.push(src[i]);
        i = i + 1;
        proof {
            assert(out@ =~= old(out)@ + src@.subrange(0, i as int));
        }
    }
    proof {
        assert(src@.subrange(0, N as int) =~= src@);
    }
}

/// Appends the bytes of `src` to `out`.
pub fn push_all(out: &mut Vec<u8>, src: &Vec<u8>)
    ensures
        final(out)@ == old(out)@ + src@,
{
    let mut i: usize = 0;
    while i < src.len()
        invariant
            i <= src@.len(),
            out@ == old(out)@ + src@.subrange(0, i as int),
        decreases src@.len() - i,
    {
        out.push(src[i]);
        i = i + 1;
        proof {
            assert(out@ =~= old(out)@ + src@.subrange(0, i as int));
        }
    }
    proof {
        assert(src@.subrange(0, src@.len() as int) =~= src@);
    }
}

/// The record of a fixed-size type that holds one `n`-byte little-endian
/// integer: length byte, tag, integer.
pub open spec fn fixed_wire(length: u8, tag: u8, value: nat, n: nat) -> Seq<u8> {
    seq![length, tag] + le_bytes(value, n)
}

/// Decodes the record at `offset` of a fixed-size type that holds one `n`-byte
/// little-endian integer; gives its declared length and the integer.
pub fn decode_fixed(data: &Vec<u8>, offset: usize, n: usize, tag: u8) -> (r: Result<
    (u8, u128),
    DecodeError,
>)
    requires
        1 <= n <= 16,
    ensures
        ({
            let s = record_at(data@, offset as int);
            match fixed_size_error(s, (n + 2) as nat, tag) {
                Some(e) => r == Err::<(u8, u128), DecodeError>(e),
                None => r == Ok::<(u8, u128), DecodeError>(
                    (s[0], le_value(s.subrange(2, n + 2 as int)) as u128),
                ),
            }
        }),
{
    match check_fixed_size(data, offset, n + 2, tag) {
        Some(e) => Err(e),
        None => {
            let len = data.len();
            assert(offset + n + 2 <= len);
            let value = read_le(data, offset + 2, n);
            proof {
                let s = record_at(data@, offset as int);
                assert(s.subrange(2, n + 2 as int) =~= data@.subrange(offset + 2, offset + 2 + n));
            }
            Ok((data[offset], value))
        },
    }
}

/// A well-formed fixed-size record decodes to its fields.
pub proof fn lemma_fixed_decode_wire(length: u8, tag: u8, value: nat, n: nat)
    requires
        length as nat == n + 1,
        value < pow256(n),
    ensures
        fixed_size_error(fixed_wire(length, tag, value, n), n + 2, tag) is None,
        fixed_wire(length, tag, value, n)[0] == length,
        le_value(fixed_wire(length, tag, value, n).subrange(2, n + 2 as int)) == value,
{
    let w = fixed_wire(length, tag, value, n);
    lemma_le_bytes_len(value, n);
    assert(w.subrange(2, n + 2 as int) =~= le_bytes(value, n));
    lemma_le_value_of_bytes(value, n);
}

/// A fixed-size record that passes the size check, with its type's tag, is
/// rebuilt from its fields.
pub proof fn lemma_fixed_wire_decode(s: Seq<u8>, tag: u8, n: nat)
    requires
        fixed_size_error(s, n + 2, tag) is None,
        s.len() == n + 2,
        s[1] == tag,
    ensures
        fixed_wire(s[0], tag, le_value(s.subrange(2, n + 2 as int)), n) == s,
        le_value(s.subrange(2, n + 2 as int)) < pow256(n),
{
    let p = s.subrange(2, n + 2 as int);
    lemma_le_bytes_of_value(p);
    lemma_le_value_bound(p);
    assert(fixed_wire(s[0], tag, le_value(p), n) =~= s);
}

} // verus!
