//! 128-bit UUIDs, and the short (16- and 32-bit) forms that stand for a UUID
//! made from the Bluetooth Base UUID.

use vstd::prelude::*;

verus! {

/// A 128-bit UUID, held as its sixteen bytes in the order in which its text
/// form writes them (`00000000-0000-1000-8000-00805F9B34FB` starts with
/// `0x00` and ends with `0xFB`).
#[derive(Debug, Clone, Copy)]
pub struct BleUuid {
    /// The bytes, most significant first.
    pub bytes: [u8; 16],
}

impl PartialEq for BleUuid {
    fn eq(&self, other: &BleUuid) -> (r: bool) {
        let mut i: usize = 0;
        while i < 16
            invariant
                i <= 16,
                forall|j: int| 0 <= j < i ==> self.bytes@[j] == other.bytes@[j],
            decreases 16 - i,
        {
            if self.bytes[i] != other.bytes[i] {
                return false;
            }
            i = i + 1;
        }
        proof {
            assert(self.bytes@ =~= other.bytes@);
        }
        true
    }
}

impl vstd::std_specs::cmp::PartialEqSpecImpl for BleUuid {
    open spec fn obeys_eq_spec() -> bool {
        true
    }

    open spec fn eq_spec(&self, other: &BleUuid) -> bool {
        self.bytes@ == other.bytes@
    }
}

impl Eq for BleUuid {

}

/// The bytes of the Bluetooth Base UUID, `00000000-0000-1000-8000-00805F9B34FB`.
pub open spec fn base_uuid_bytes() -> Seq<u8> {
    seq![
        0x00u8, 0x00, 0x00, 0x00, 0x00, 0x00, 0x10, 0x00,
        0x80, 0x00, 0x00, 0x80, 0x5f, 0x9b, 0x34, 0xfb,
    ]
}

/// The bytes of a UUID in the "little-endian" order of its fields: the first
/// three fields (4, 2 and 2 bytes) reversed, the last eight bytes as they stand.
/// The order is its own inverse.
pub open spec fn swap_fields(b: Seq<u8>) -> Seq<u8> {
    Seq::new(16, |k: int| b[swapped_index(k)])
}

/// Where byte `k` of the little-endian field order comes from:
/// `3 2 1 0 5 4 7 6 8 9 .. 15`.
pub open spec fn swapped_index(k: int) -> int {
    if k < 4 {
        3 - k
    } else if k < 6 {
        9 - k
    } else if k < 8 {
        13 - k
    } else {
        k
    }
}

/// The UUID that the `w`-byte short form `s` (little-endian, as on the air)
/// stands for: the Base UUID whose `w` low-order bytes of the first field
/// are replaced by `s`.
pub open spec fn overlay(s: Seq<u8>) -> Seq<u8> {
    Seq::new(
        16,
        |i: int|
            if 4 - s.len() <= i < 4 {
                s[3 - i]
            } else {
                base_uuid_bytes()[i]
            },
    )
}

/// The `w`-byte short form of the UUID `u`, little-endian.
pub open spec fn short_form(u: Seq<u8>, w: nat) -> Seq<u8> {
    Seq::new(w, |i: int| u[3 - i])
}

/// `u` is the Base UUID but for the `w` bytes that a short form carries.
pub open spec fn is_short(u: Seq<u8>, w: nat) -> bool {
    &&& u.len() == 16
    &&& forall|i: int| 0 <= i < 16 && !(4 - w <= i < 4) ==> u[i] == base_uuid_bytes()[i]
}

/// Relies on `uuid::Uuid::from_bytes_le`: it reverses the first three fields
/// of the bytes given and keeps the last eight (`uuid::Uuid::into_bytes`
/// hands the result back as it stands).
#[verifier::external_body]
fn uuid_from_bytes_le(b: [u8; 16]) -> (r: [u8; 16])
    ensures
        r@ == swap_fields(b@),
{
    uuid::Uuid::from_bytes_le(b).into_bytes()
}

/// Relies on `uuid::Uuid::to_bytes_le`: it gives the bytes with the first
/// three fields reversed and the last eight as they stand
/// (`uuid::Uuid::from_bytes` takes the bytes as they stand).
#[verifier::external_body]
fn uuid_to_bytes_le(b: [u8; 16]) -> (r: [u8; 16])
    ensures
        r@ == swap_fields(b@),
{
    uuid::Uuid::from_bytes(b).to_bytes_le()
}

impl BleUuid {
    /// The Bluetooth Base UUID, `00000000-0000-1000-8000-00805F9B34FB`.
    pub fn base() -> (r: BleUuid)
        ensures
            r.bytes@ == base_uuid_bytes(),
    {
        let bytes: [u8; 16] = [
            0x00u8, 0x00, 0x00, 0x00, 0x00, 0x00, 0x10, 0x00,
            0x80, 0x00, 0x00, 0x80, 0x5f, 0x9b, 0x34, 0xfb,
        ];
        proof {
            assert(bytes@ =~= base_uuid_bytes());
        }
        BleUuid { bytes }
    }

    /// The UUID with the given bytes, most significant first.
    pub fn from_bytes(bytes: [u8; 16]) -> (r: BleUuid)
        ensures
            r.bytes == bytes,
    {
        BleUuid { bytes }
    }

    /// The UUID that the short form `data[start .. start + w]` stands for.
    pub fn from_short(data: &Vec<u8>, start: usize, w: usize) -> (r: BleUuid)
        requires
            w == 2 || w == 4,
            start + w <= data@.len(),
        ensures
            r.bytes@ == overlay(data@.subrange(start as int, start + w)),
    {
        let len = data.len();
        let mut le = uuid_to_bytes_le(Self::base().bytes);
        let ghost le0 = le@;
        let mut i: usize = 0;
        while i < w
            invariant
                w == 2 || w == 4,
                start + w <= data@.len(),
                data@.len() == len,
                le0 == swap_fields(base_uuid_bytes()),
                le0.len() == 16,
                i <= w,
                le@.len() == 16,
                forall|j: int| 0 <= j < i ==> le@[j] == data@[start + j],
                forall|j: int| i <= j < 16 ==> le@[j] == le0[j],
            decreases w - i,
        {
            le[i] = data[start + i];
            i = i + 1;
        }
        let bytes = uuid_from_bytes_le(le);
        proof {
            let sub = data@.subrange(start as int, start + w);
            assert forall|k: int| 0 <= k < 16 implies bytes@[k] == overlay(sub)[k] by {
                let m = swapped_index(k);
                assert(bytes@[k] == le@[m]);
                if 4 - w <= k < 4 {
                    assert(le@[m] == data@[start + m]);
                } else {
                    assert(le@[m] == le0[m]);
                    assert(le0[m] == base_uuid_bytes()[swapped_index(m)]);
                }
            }
            assert(bytes@ =~= overlay(sub));
        }
        BleUuid { bytes }
    }

    /// Appends the `w`-byte short form of `self` to `out`.
    pub fn push_short(&self, out: &mut Vec<u8>, w: usize)
        requires
            w == 2 || w == 4,
        ensures
            final(out)@ == old(out)@ + short_form(self.bytes@, w as nat),
    {
        let le = uuid_to_bytes_le(self.bytes);
        let mut i: usize = 0;
        while i < w
            invariant
                w == 2 || w == 4,
                i <= w,
                le@ == swap_fields(self.bytes@),
                out@ == old(out)@ + short_form(self.bytes@, i as nat),
            decreases w - i,
        {
            out.push(le[i]);
            i = i + 1;
            proof {
                assert(out@ =~= old(out)@ + short_form(self.bytes@, i as nat));
            }
        }
    }
}

/// The UUID whose bytes are those of `e` in reverse order: a 128-bit UUID
/// written as a little-endian number.
pub open spec fn reversed16(e: Seq<u8>) -> Seq<u8> {
    Seq::new(16, |i: int| e[15 - i])
}

impl BleUuid {
    /// The UUID written little-endian as the 16 bytes `data[start .. start + 16]`.
    pub fn from_le_bytes(data: &Vec<u8>, start: usize) -> (r: BleUuid)
        requires
            start + 16 <= data@.len(),
        ensures
            r.bytes@ == reversed16(data@.subrange(start as int, start + 16)),
    {
        let len = data.len();
        let mut bytes = [0u8; 16];
        let mut i: usize = 0;
        while i < 16
            invariant
                i <= 16,
                start + 16 <= data@.len(),
                data@.len() == len,
                bytes@.len() == 16,
                forall|j: int| 0 <= j < i ==> bytes@[j] == data@[start + 15 - j],
            decreases 16 - i,
        {
            bytes[i] = data[start + 15 - i];
            i = i + 1;
        }
        proof {
            assert(bytes@ =~= reversed16(data@.subrange(start as int, start + 16)));
        }
        BleUuid { bytes }
    }

    /// Appends `self` written as a little-endian number: its bytes in reverse order.
    pub fn push_le_bytes(&self, out: &mut Vec<u8>)
        ensures
            final(out)@ == old(out)@ + reversed16(self.bytes@),
    {
        let mut i: usize = 0;
        while i < 16
            invariant
                i <= 16,
                out@ == old(out)@ + reversed16(self.bytes@).subrange(0, i as int),
            decreases 16 - i,
        {
            out.push(self.bytes[15 - i]);
            i = i + 1;
            proof {
                assert(out@ =~= old(out)@ + reversed16(self.bytes@).subrange(0, i as int));
            }
        }
        proof {
            assert(reversed16(self.bytes@).subrange(0, 16) =~= reversed16(self.bytes@));
        }
    }
}

/// Two UUIDs with the same bytes are equal.
pub proof fn lemma_uuid_ext_equal(a: BleUuid, b: BleUuid)
    requires
        a.bytes@ == b.bytes@,
    ensures
        a == b,
{
    assert(a.bytes =~= b.bytes);
}

/// Reading a short form back from the UUID it stands for gives the short form.
pub proof fn lemma_short_form_of_overlay(s: Seq<u8>)
    requires
        s.len() == 2 || s.len() == 4,
    ensures
        short_form(overlay(s), s.len()) == s,
        is_short(overlay(s), s.len()),
{
    assert(short_form(overlay(s), s.len()) =~= s);
}

/// A UUID made from the Base UUID is the one that its short form stands for.
pub proof fn lemma_overlay_of_short_form(u: Seq<u8>, w: nat)
    requires
        w == 2 || w == 4,
        is_short(u, w),
    ensures
        overlay(short_form(u, w)) == u,
{
    assert(overlay(short_form(u, w)) =~= u);
}

} // verus!
