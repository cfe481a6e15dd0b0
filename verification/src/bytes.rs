//! Fixed-width little-endian integers, the building block of every wire
//! format in this crate.
//!
//! An unsigned integer is written as its base-256 digits, least significant
//! first, padded to the declared width. A signed 64-bit integer is written as
//! the unsigned integer that shares its two's-complement bit pattern.

use vstd::prelude::*;

verus! {

/// The `width` low-order base-256 digits of `value`, least significant first.
pub open spec fn le_bytes(value: nat, width: nat) -> Seq<u8>
    decreases width,
{
    if width == 0 {
        Seq::empty()
    } else {
        seq![(value % 256) as u8] + le_bytes(value / 256, (width - 1) as nat)
    }
}

/// The number whose base-256 digits, least significant first, are `bytes`.
pub open spec fn le_value(bytes: Seq<u8>) -> nat
    decreases bytes.len(),
{
    if bytes.len() == 0 {
        0
    } else {
        bytes[0] as nat + 256 * le_value(bytes.drop_first())
    }
}

/// `256` to the power `width`: the number of values that fit in `width` bytes.
pub open spec fn radix(width: nat) -> nat
    decreases width,
{
    if width == 0 {
        1
    } else {
        256 * radix((width - 1) as nat)
    }
}

/// The unsigned 64-bit number with the same bit pattern as `value`.
pub open spec fn twos_complement(value: int) -> nat {
    if value >= 0 {
        value as nat
    } else {
        (value + 0x1_0000_0000_0000_0000) as nat
    }
}

/// The signed 64-bit number with the same bit pattern as `code`.
pub open spec fn from_twos_complement(code: nat) -> int {
    if code < 0x8000_0000_0000_0000 {
        code as int
    } else {
        code - 0x1_0000_0000_0000_0000
    }
}

/// An encoding is exactly as wide as declared.
pub proof fn lemma_le_bytes_len(value: nat, width: nat)
    ensures
        le_bytes(value, width).len() == width,
    decreases width,
{
    if width > 0 {
        lemma_le_bytes_len(value / 256, (width - 1) as nat);
    }
}

/// The first powers of 256, up to the range of a 64-bit integer.
pub proof fn lemma_radix_values()
    ensures
        radix(0) == 1,
        radix(1) == 0x100,
        radix(2) == 0x1_0000,
        radix(3) == 0x100_0000,
        radix(4) == 0x1_0000_0000,
        radix(5) == 0x100_0000_0000,
        radix(6) == 0x1_0000_0000_0000,
        radix(7) == 0x100_0000_0000_0000,
        radix(8) == 0x1_0000_0000_0000_0000,
{
    reveal_with_fuel(radix, 10);
}

/// A byte string of length `n` denotes a number below `256^n`.
pub proof fn lemma_le_value_bound(bytes: Seq<u8>)
    ensures
        le_value(bytes) < radix(bytes.len()),
    decreases bytes.len(),
{
    if bytes.len() > 0 {
        lemma_le_value_bound(bytes.drop_first());
        let rest = le_value(bytes.drop_first());
        let top = radix((bytes.len() - 1) as nat);
        assert(bytes[0] as nat + 256 * rest < 256 * top) by (nonlinear_arith)
            requires
                rest < top,
                bytes[0] < 256,
        ;
    }
}

/// Decoding the encoding of a number that fits gives the number back.
pub proof fn lemma_le_value_of_bytes(value: nat, width: nat)
    requires
        value < radix(width),
    ensures
        le_value(le_bytes(value, width)) == value,
    decreases width,
{
    if width > 0 {
        let rest = le_bytes(value / 256, (width - 1) as nat);
        let all = le_bytes(value, width);
        assert(value / 256 < radix((width - 1) as nat)) by (nonlinear_arith)
            requires
                value < 256 * radix((width - 1) as nat),
        ;
        lemma_le_value_of_bytes(value / 256, (width - 1) as nat);
        assert(all.drop_first() =~= rest);
        assert(all[0] == (value % 256) as u8);
    }
}

/// Encoding the number that a byte string denotes, at the string's own
/// width, gives the string back.
pub proof fn lemma_le_bytes_of_value(bytes: Seq<u8>)
    ensures
        le_bytes(le_value(bytes), bytes.len()) == bytes,
    decreases bytes.len(),
{
    if bytes.len() > 0 {
        let tail = bytes.drop_first();
        let value = le_value(bytes);
        lemma_le_bytes_of_value(tail);
        assert(value % 256 == bytes[0] as nat && value / 256 == le_value(tail)) by {
            let q = le_value(tail);
            let r = bytes[0] as nat;
            assert((r + 256 * q) % 256 == r && (r + 256 * q) / 256 == q) by (nonlinear_arith)
                requires
                    r < 256,
            ;
        }
        assert(seq![bytes[0]] + tail =~= bytes);
    } else {
        assert(le_bytes(0, 0) =~= bytes);
    }
}

/// The two's-complement code of a 64-bit integer fits in 64 bits, and
/// decoding it gives the integer back.
pub proof fn lemma_twos_complement_inverse(value: int)
    requires
        i64::MIN <= value <= i64::MAX,
    ensures
        twos_complement(value) <= u64::MAX,
        from_twos_complement(twos_complement(value)) == value,
{
}

/// Every 64-bit code is the two's complement of the integer it decodes to.
pub proof fn lemma_from_twos_complement_inverse(code: nat)
    requires
        code <= u64::MAX,
    ensures
        i64::MIN <= from_twos_complement(code) <= i64::MAX,
        twos_complement(from_twos_complement(code)) == code,
{
}

/// Appends the `width`-byte little-endian encoding of `value` to `out`.
pub fn write_le(out: &mut Vec<u8>, value: u64, width: usize)
    requires
        width <= 8,
    ensures
        final(out)@ == old(out)@ + le_bytes(value as nat, width as nat),
{
    let mut rest: u64 = value;
    let mut written: usize = 0;
    while written < width
        invariant
            written <= width,
            old(out)@ + le_bytes(value as nat, width as nat) == out@ + le_bytes(
                rest as nat,
                (width - written) as nat,
            ),
        decreases width - written,
    {
        let digit: u8 = (rest % 256) as u8;
        proof {
            let tail = le_bytes((rest / 256) as nat, (width - written - 1) as nat);
            assert(out@ + (seq![digit] + tail) =~= out@.push(digit) + tail);
        }
        out.push(digit);
        rest = rest / 256;
        written = written + 1;
    }
    assert(out@ + le_bytes(rest as nat, 0) =~= out@);
}

/// Reads the little-endian integer held in the `width` bytes of `bytes` that
/// start at `start`.
pub fn read_le(bytes: &[u8], start: usize, width: usize) -> (value: u64)
    requires
        width <= 8,
        start + width <= bytes.len(),
    ensures
        value == le_value(bytes@.subrange(start as int, start + width)),
{
    let mut value: u64 = 0;
    let mut left: usize = width;
    assert(bytes@.subrange(start + width, start + width).len() == 0);
    while left > 0
        invariant
            left <= width <= 8,
            start + width <= bytes.len(),
            value == le_value(bytes@.subrange(start + left, start + width)),
            value < radix((width - left) as nat),
        decreases left,
    {
        left = left - 1;
        let digit: u8 = bytes[start + left];
        proof {
            let seen = bytes@.subrange(start + left, start + width);
            assert(seen.drop_first() =~= bytes@.subrange(start + left + 1, start + width));
            assert(seen[0] == digit);
            lemma_radix_values();
            lemma_le_value_bound(seen);
            assert(radix((width - left) as nat) <= 0x1_0000_0000_0000_0000);
            assert(le_value(seen) == digit as nat + 256 * value);
        }
        value = value * 256 + (digit as u64);
    }
    value
}

/// The 64-bit pattern of a signed timestamp, as an unsigned number.
pub fn i64_code(value: i64) -> (code: u64)
    ensures
        code == twos_complement(value as int),
{
    if value >= 0 {
        value as u64
    } else {
        let lifted: i64 = value - i64::MIN;
        (lifted as u64) + 0x8000_0000_0000_0000u64
    }
}

/// The signed number that a 64-bit pattern stands for.
pub fn i64_from_code(code: u64) -> (value: i64)
    ensures
        value == from_twos_complement(code as nat),
{
    if code < 0x8000_0000_0000_0000u64 {
        code as i64
    } else {
        let lowered: u64 = code - 0x8000_0000_0000_0000u64;
        (lowered as i64) + i64::MIN
    }
}

} // verus!

verus! {

/// Appends all of `source` to `out`.
pub fn append_bytes(out: &mut Vec<u8>, source: &[u8])
    ensures
        final(out)@ == old(out)@ + source@,
{
    let mut i: usize = 0;
    while i < source.len()
        invariant
            i <= source.len(),
            out@ == old(out)@ + source@.take(i as int),
        decreases source.len() - i,
    {
        assert(source@.take(i + 1) =~= source@.take(i as int).push(source@[i as int]));
        out.push(source[i]);
        i = i + 1;
    }
    assert(source@.take(source.len() as int) =~= source@);
}

/// Copies the `count` bytes of `source` that start at `start`.
pub fn copy_bytes(source: &[u8], start: usize, count: usize) -> (copy: Vec<u8>)
    requires
        start + count <= source.len(),
    ensures
        copy@ == source@.subrange(start as int, start + count),
{
    let mut copy: Vec<u8> = Vec::new();
    let mut i: usize = 0;
    while i < count
        invariant
            i <= count,
            start + count <= source.len(),
            copy@ == source@.subrange(start as int, start + i),
        decreases count - i,
    {
        assert(source@.subrange(start as int, start + i + 1) =~= source@.subrange(
            start as int,
            start + i,
        ).push(source@[start + i]));
        copy.push(source[start + i]);
        i = i + 1;
    }
    copy
}

} // verus!

verus! {

/// Copies the `W` bytes of `source` that start at `start` into an array.
pub fn read_array<const W: usize>(source: &[u8], start: usize) -> (array: [u8; W])
    requires
        start + W <= source.len(),
    ensures
        array@ == source@.subrange(start as int, start + W),
{
    let mut array: [u8; W] = [0u8; W];
    let mut i: usize = 0;
    while i < W
        invariant
            i <= W,
            start + W <= source.len(),
            forall|k: int| 0 <= k < i ==> array@[k] == source@[start + k],
        decreases W - i,
    {
        array[i] = source[start + i];
        i = i + 1;
    }
    assert(array@ =~= source@.subrange(start as int, start + W));
    array
}

} // verus!

verus! {

/// Tells whether two byte strings are the same.
pub fn bytes_equal(left: &[u8], right: &[u8]) -> (equal: bool)
    ensures
        equal == (left@ == right@),
{
    if left.len() != right.len() {
        return false;
    }
    let mut i: usize = 0;
    while i < left.len()
        invariant
            i <= left.len(),
            left.len() == right.len(),
            forall|k: int| 0 <= k < i ==> left@[k] == right@[k],
        decreases left.len() - i,
    {
        if left[i] != right[i] {
            return false;
        }
        i = i + 1;
    }
    assert(left@ =~= right@);
    true
}

} // verus!
