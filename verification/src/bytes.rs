//! Little-endian integers inside byte buffers.
//!
//! Every wire format the loader reads (the boot information block, the
//! header in front of the kernel image) and every value it patches into
//! the kernel image is little-endian. The spec functions here say what a
//! run of bytes means as a number; the executable functions read and write
//! such runs with bounds checks.

use vstd::prelude::*;

verus! {

/// The number held by the four bytes of `s` that start at `at`.
pub open spec fn le_u32(s: Seq<u8>, at: int) -> u32 {
    (s[at] as int + s[at + 1] as int * 0x100 + s[at + 2] as int * 0x1_0000 + s[at + 3] as int
        * 0x100_0000) as u32
}

/// The number held by the eight bytes of `s` that start at `at`.
pub open spec fn le_u64(s: Seq<u8>, at: int) -> u64 {
    (le_u32(s, at) as int + le_u32(s, at + 4) as int * 0x1_0000_0000) as u64
}

/// Byte `i` (0 is the lowest) of the little-endian form of `value`.
pub open spec fn le_byte(value: u64, i: int) -> u8 {
    if i == 0 {
        (value as int % 0x100) as u8
    } else if i == 1 {
        (value as int / 0x100 % 0x100) as u8
    } else if i == 2 {
        (value as int / 0x1_0000 % 0x100) as u8
    } else if i == 3 {
        (value as int / 0x100_0000 % 0x100) as u8
    } else if i == 4 {
        (value as int / 0x1_0000_0000 % 0x100) as u8
    } else if i == 5 {
        (value as int / 0x100_0000_0000 % 0x100) as u8
    } else if i == 6 {
        (value as int / 0x1_0000_0000_0000 % 0x100) as u8
    } else {
        (value as int / 0x100_0000_0000_0000 % 0x100) as u8
    }
}

/// The four bytes of `value`, lowest first.
pub open spec fn le_bytes_of_u32(value: u32) -> Seq<u8> {
    Seq::new(4, |i: int| le_byte(value as u64, i))
}

/// The eight bytes of `value`, lowest first.
pub open spec fn le_bytes_of(value: u64) -> Seq<u8> {
    Seq::new(8, |i: int| le_byte(value, i))
}

/// `s` with the eight bytes from `at` on replaced by the little-endian
/// form of `value`; every other byte is kept.
pub open spec fn with_le_u64(s: Seq<u8>, at: int, value: u64) -> Seq<u8> {
    Seq::new(
        s.len(),
        |i: int|
            if at <= i < at + 8 {
                le_byte(value, i - at)
            } else {
                s[i]
            },
    )
}

/// Decoding the encoding of a value gives the value back.
pub proof fn lemma_le_u64_of_bytes(value: u64)
    ensures
        le_u64(le_bytes_of(value), 0) == value,
{
    let s = le_bytes_of(value);
    assert(s[0] == le_byte(value, 0));
    assert(s[1] == le_byte(value, 1));
    assert(s[2] == le_byte(value, 2));
    assert(s[3] == le_byte(value, 3));
    assert(s[4] == le_byte(value, 4));
    assert(s[5] == le_byte(value, 5));
    assert(s[6] == le_byte(value, 6));
    assert(s[7] == le_byte(value, 7));
    let lo: u64 = value % 0x1_0000_0000;
    let hi: u64 = value / 0x1_0000_0000;
    assert(value % 0x100 + (value / 0x100 % 0x100) * 0x100 + (value / 0x1_0000 % 0x100) * 0x1_0000
        + (value / 0x100_0000 % 0x100) * 0x100_0000 == value % 0x1_0000_0000) by (bit_vector);
    assert((value / 0x1_0000_0000 % 0x100) + (value / 0x100_0000_0000 % 0x100) * 0x100 + (value
        / 0x1_0000_0000_0000 % 0x100) * 0x1_0000 + (value / 0x100_0000_0000_0000 % 0x100)
        * 0x100_0000 == value / 0x1_0000_0000) by (bit_vector);
    assert(le_u32(s, 0) == lo);
    assert(le_u32(s, 4) == hi);
}

/// Decoding the encoding of a 32-bit value gives the value back.
pub proof fn lemma_le_u32_of_bytes(value: u32)
    ensures
        le_u32(le_bytes_of_u32(value), 0) == value,
{
    let s = le_bytes_of_u32(value);
    let wide = value as u64;
    assert(s[0] == le_byte(wide, 0));
    assert(s[1] == le_byte(wide, 1));
    assert(s[2] == le_byte(wide, 2));
    assert(s[3] == le_byte(wide, 3));
    assert(wide % 0x100 + (wide / 0x100 % 0x100) * 0x100 + (wide / 0x1_0000 % 0x100) * 0x1_0000
        + (wide / 0x100_0000 % 0x100) * 0x100_0000 == wide % 0x1_0000_0000) by (bit_vector);
}

/// A value patched into a buffer reads back from the place it was written,
/// and the buffer keeps its length and all its other bytes.
pub proof fn lemma_with_le_u64(s: Seq<u8>, at: int, value: u64)
    requires
        0 <= at,
        at + 8 <= s.len(),
    ensures
        le_u64(with_le_u64(s, at, value), at) == value,
        with_le_u64(s, at, value).len() == s.len(),
        forall|i: int| 0 <= i < s.len() && !(at <= i < at + 8) ==> with_le_u64(s, at, value)[i] == s[i],
{
    let t = with_le_u64(s, at, value);
    let e = le_bytes_of(value);
    lemma_le_u64_of_bytes(value);
    assert(t[at] == e[0]);
    assert(t[at + 1] == e[1]);
    assert(t[at + 2] == e[2]);
    assert(t[at + 3] == e[3]);
    assert(t[at + 4] == e[4]);
    assert(t[at + 5] == e[5]);
    assert(t[at + 6] == e[6]);
    assert(t[at + 7] == e[7]);
    assert(le_u32(t, at) == le_u32(e, 0));
    assert(le_u32(t, at + 4) == le_u32(e, 4));
}

/// Reads a little-endian `u32` at `at`, or nothing where four bytes are not
/// there to be read.
pub fn read_u32(buffer: &[u8], at: usize) -> (r: Option<u32>)
    ensures
        r == (if at + 4 <= buffer@.len() {
            Some(le_u32(buffer@, at as int))
        } else {
            None
        }),
{
    if buffer.len() < 4 || at > buffer.len() - 4 {
        return None;
    }
    let b0: u32 = buffer[at] as u32;
    let b1: u32 = buffer[at + 1] as u32;
    let b2: u32 = buffer[at + 2] as u32;
    let b3: u32 = buffer[at + 3] as u32;
    Some(b0 + b1 * 0x100 + b2 * 0x1_0000 + b3 * 0x100_0000)
}

/// Reads a little-endian `u64` at `at`, or nothing where eight bytes are
/// not there to be read.
pub fn read_u64(buffer: &[u8], at: usize) -> (r: Option<u64>)
    ensures
        r == (if at + 8 <= buffer@.len() {
            Some(le_u64(buffer@, at as int))
        } else {
            None
        }),
{
    if buffer.len() < 8 || at > buffer.len() - 8 {
        return None;
    }
    let lo = read_u32(buffer, at);
    let hi = read_u32(buffer, at + 4);
    match (lo, hi) {
        (Some(lo), Some(hi)) => Some(lo as u64 + hi as u64 * 0x1_0000_0000),
        _ => None,
    }
}

/// The little-endian form of a 32-bit `value` as an array.
pub fn u32_to_le(value: u32) -> (r: [u8; 4])
    ensures
        r@ == le_bytes_of_u32(value),
{
    let r: [u8; 4] = [
        (value % 0x100) as u8,
        (value / 0x100 % 0x100) as u8,
        (value / 0x1_0000 % 0x100) as u8,
        (value / 0x100_0000 % 0x100) as u8,
    ];
    assert(r@ =~= le_bytes_of_u32(value));
    r
}

/// The little-endian form of `value` as an array.
pub fn u64_to_le(value: u64) -> (r: [u8; 8])
    ensures
        r@ == le_bytes_of(value),
{
    let r: [u8; 8] = [
        (value % 0x100) as u8,
        (value / 0x100 % 0x100) as u8,
        (value / 0x1_0000 % 0x100) as u8,
        (value / 0x100_0000 % 0x100) as u8,
        (value / 0x1_0000_0000 % 0x100) as u8,
        (value / 0x100_0000_0000 % 0x100) as u8,
        (value / 0x1_0000_0000_0000 % 0x100) as u8,
        (value / 0x100_0000_0000_0000 % 0x100) as u8,
    ];
    assert(r@ =~= le_bytes_of(value));
    r
}

/// The number that eight little-endian bytes hold.
pub fn u64_from_le(bytes: &[u8; 8]) -> (r: u64)
    ensures
        r == le_u64(bytes@, 0),
{
    let lo: u64 = bytes[0] as u64 + bytes[1] as u64 * 0x100 + bytes[2] as u64 * 0x1_0000
        + bytes[3] as u64 * 0x100_0000;
    let hi: u64 = bytes[4] as u64 + bytes[5] as u64 * 0x100 + bytes[6] as u64 * 0x1_0000
        + bytes[7] as u64 * 0x100_0000;
    lo + hi * 0x1_0000_0000
}

/// Writes `value` in little-endian form over the eight bytes of `dest` that
/// start at `at`.
pub fn write_u64(dest: &mut [u8], at: usize, value: u64)
    requires
        at + 8 <= old(dest)@.len(),
    ensures
        final(dest)@ == with_le_u64(old(dest)@, at as int, value),
{
    let bytes = u64_to_le(value);
    let ghost before = dest@;
    let len = dest.len();
    let mut i: usize = 0;
    while i < 8
        invariant
            i <= 8,
            at + 8 <= len,
            dest@.len() == len,
            before.len() == len,
            bytes@ == le_bytes_of(value),
            forall|j: int| 0 <= j < dest@.len() && !(at <= j < at + i) ==> dest@[j] == before[j],
            forall|j: int| at <= j < at + i ==> dest@[j] == le_byte(value, j - at),
        decreases 8 - i,
    {
        dest[at + i] = bytes[i];
        i += 1;
    }
    assert(dest@ =~= with_le_u64(before, at as int, value));
}

} // verus!
