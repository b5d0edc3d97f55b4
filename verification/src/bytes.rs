//! Little-endian integers inside byte sequences.
use vstd::prelude::*;

verus! {

/// The 16-bit little-endian integer at `at`.
pub open spec fn le16(bytes: Seq<u8>, at: int) -> int {
    bytes[at] + 0x100 * bytes[at + 1]
}

/// The 32-bit little-endian integer at `at`.
pub open spec fn le32(bytes: Seq<u8>, at: int) -> int {
    bytes[at] + 0x100 * bytes[at + 1] + 0x1_0000 * bytes[at + 2] + 0x100_0000 * bytes[at + 3]
}

pub fn read_le16(bytes: &[u8], at: usize) -> (value: u16)
    requires
        at + 2 <= bytes@.len(),
    ensures
        value == le16(bytes@, at as int),
{
    bytes[at] as u16 + 0x100 * bytes[at + 1] as u16
}

pub fn read_le32(bytes: &[u8], at: usize) -> (value: u32)
    requires
        at + 4 <= bytes@.len(),
    ensures
        value == le32(bytes@, at as int),
{
    bytes[at] as u32 + 0x100 * bytes[at + 1] as u32 + 0x1_0000 * bytes[at + 2] as u32 + 0x100_0000
        * bytes[at + 3] as u32
}

/// Overwrites the four bytes at `at` with `value` and leaves the others alone.
pub fn write_le32(bytes: &mut Vec<u8>, at: usize, value: u32)
    requires
        at + 4 <= old(bytes).len(),
    ensures
        final(bytes)@.len() == old(bytes)@.len(),
        le32(final(bytes)@, at as int) == value,
        forall|i: int|
            0 <= i < old(bytes)@.len() && !(at <= i < at + 4) ==> final(bytes)@[i] == old(
                bytes,
            )@[i],
{
    bytes[at] = (value % 0x100) as u8;
    bytes[at + 1] = (value / 0x100 % 0x100) as u8;
    bytes[at + 2] = (value / 0x1_0000 % 0x100) as u8;
    bytes[at + 3] = (value / 0x100_0000) as u8;
}

/// Four bytes are determined by the integer they hold.
pub proof fn law_le32_injective(a: Seq<u8>, b: Seq<u8>, at: int)
    requires
        le32(a, at) == le32(b, at),
    ensures
        forall|i: int| at <= i < at + 4 ==> a[i] == b[i],
{
    let (a0, a1, a2, a3) = (a[at] as int, a[at + 1] as int, a[at + 2] as int, a[at + 3] as int);
    let (b0, b1, b2, b3) = (b[at] as int, b[at + 1] as int, b[at + 2] as int, b[at + 3] as int);
    let k1 = (b1 - a1) + 0x100 * (b2 - a2) + 0x1_0000 * (b3 - a3);
    assert(a0 - b0 == 0x100 * k1);
    assert(k1 == 0);
    let k2 = (b2 - a2) + 0x100 * (b3 - a3);
    assert(a1 - b1 == 0x100 * k2);
    assert(k2 == 0);
    assert(a2 - b2 == 0x100 * (b3 - a3));
    assert(b3 == a3);
}

/// The low byte comes first: a little-endian integer is what its bytes are worth by their places.
pub proof fn law_low_byte_comes_first(bytes: Seq<u8>, at: int, value: u32)
    ensures
        le16(bytes, at) == bytes[at] + 256 * bytes[at + 1],
        le32(bytes, at) == bytes[at] + 256 * (bytes[at + 1] + 256 * (bytes[at + 2] + 256 * bytes[at
            + 3])),
        le32(bytes, at) == value <==> {
            &&& bytes[at] == value % 256
            &&& bytes[at + 1] == value / 256 % 256
            &&& bytes[at + 2] == value / 65536 % 256
            &&& bytes[at + 3] == value / 16777216
        },
{
    if le32(bytes, at) == value {
        let upper = bytes[at + 1] + 256 * (bytes[at + 2] + 256 * bytes[at + 3]);
        assert(value / 256 == upper);
        let high = bytes[at + 2] + 256 * bytes[at + 3];
        assert(value / 65536 == high);
        assert(value / 16777216 == bytes[at + 3]);
    }
}

} // verus!
