//! Integer coordinate mappings behind the address projections: the Hilbert
//! curve walk, Morton bit compaction, and the byte-value colour ramp.

use vstd::prelude::*;

verus! {

/// One step of the Hilbert walk at `scale`: take two index bits, rotate
/// the quadrant when needed, and offset into it.
pub open spec fn hilbert_walk(index: u32, side: u32, scale: u32, x: u32, y: u32) -> (u32, u32)
    decreases u32::MAX - scale,
{
    if scale >= side || scale == 0 {
        (x, y)
    } else {
        let rotate_x = (index / 2) & 1;
        let rotate_y = (index ^ rotate_x) & 1;
        let (x1, y1) = if rotate_y == 0 {
            if rotate_x == 1 {
                (
                    sat_sub(sat_sub(scale, 1), y),
                    sat_sub(sat_sub(scale, 1), x),
                )
            } else {
                (y, x)
            }
        } else {
            (x, y)
        };
        let x2 = sat_add(x1, sat_mul(scale, rotate_x));
        let y2 = sat_add(y1, sat_mul(scale, rotate_y));
        let next = sat_mul(scale, 2);
        if next <= scale {
            (x2, y2)
        } else {
            hilbert_walk(index / 4, side, next, x2, y2)
        }
    }
}

/// Saturating `u32` subtraction.
pub open spec fn sat_sub(a: u32, b: u32) -> u32 {
    if a >= b { (a - b) as u32 } else { 0 }
}

/// Saturating `u32` addition.
pub open spec fn sat_add(a: u32, b: u32) -> u32 {
    if a + b > u32::MAX { u32::MAX } else { (a + b) as u32 }
}

/// Saturating `u32` multiplication.
pub open spec fn sat_mul(a: u32, b: u32) -> u32 {
    if a * b > u32::MAX { u32::MAX } else { (a * b) as u32 }
}

fn saturating_product(a: u32, b: u32) -> (product: u32)
    ensures
        product == sat_mul(a, b),
{
    match a.checked_mul(b) {
        Some(product) => product,
        None => u32::MAX,
    }
}

/// Cell `(x, y)` of `index` along a Hilbert curve filling a `side` by
/// `side` square.
pub fn hilbert_2d(index: u32, side: u32) -> (cell: [u32; 2])
    ensures
        (cell[0], cell[1]) == hilbert_walk(index, side, 1, 0, 0),
{
    let mut index = index;
    let mut x: u32 = 0;
    let mut y: u32 = 0;
    let mut scale: u32 = 1;
    let ghost target = hilbert_walk(index, side, 1, 0, 0);
    while scale < side
        invariant
            scale >= 1,
            hilbert_walk(index, side, scale, x, y) == target,
        decreases u32::MAX - scale,
    {
        let rotate_x = (index / 2) & 1;
        let rotate_y = (index ^ rotate_x) & 1;
        if rotate_y == 0 {
            if rotate_x == 1 {
                x = scale.saturating_sub(1).saturating_sub(x);
                y = scale.saturating_sub(1).saturating_sub(y);
            }
            let swapped = x;
            x = y;
            y = swapped;
        }
        x = x.saturating_add(saturating_product(scale, rotate_x));
        y = y.saturating_add(saturating_product(scale, rotate_y));
        index = index / 4;
        let next = saturating_product(scale, 2);
        if next <= scale {
            scale = u32::MAX;
            proof {
                assert(scale >= side);
            }
        } else {
            scale = next;
        }
    }
    [x, y]
}

/// The `k`-th power of two.
pub open spec fn pow2(k: nat) -> nat
    decreases k,
{
    if k == 0 { 1 } else { 2 * pow2((k - 1) as nat) }
}

proof fn lemma_bit_le_one(v: u32)
    ensures
        v & 1 <= 1,
{
    assert(v & 1 <= 1) by (bit_vector);
}

proof fn lemma_hilbert_walk_bounded(index: u32, side: u32, scale: u32, x: u32, y: u32, k: nat)
    requires
        1 <= scale <= side,
        x < scale,
        y < scale,
        side == pow2(k),
        k <= 16,
        exists|j: nat| j <= k && scale == pow2(j),
    ensures
        hilbert_walk(index, side, scale, x, y).0 < side,
        hilbert_walk(index, side, scale, x, y).1 < side,
    decreases side - scale,
{
    if scale < side {
        let j = choose|j: nat| j <= k && scale == pow2(j);
        lemma_pow2_grows(j, k);
        lemma_bit_le_one(index / 2);
        let rotate_x = (index / 2) & 1;
        lemma_bit_le_one(index ^ rotate_x);
        let rotate_y = (index ^ rotate_x) & 1;
        assert(j < k);
        assert(pow2(j + 1) == 2 * scale);
        lemma_pow2_grows(j + 1, k);
        assert(2 * scale <= side);
        lemma_hilbert_walk_bounded(index / 4, side, (2 * scale) as u32, sat_add(
            if rotate_y == 0 { if rotate_x == 1 { sat_sub(sat_sub(scale, 1), y) } else { y } } else { x },
            sat_mul(scale, rotate_x),
        ), sat_add(
            if rotate_y == 0 { if rotate_x == 1 { sat_sub(sat_sub(scale, 1), x) } else { x } } else { y },
            sat_mul(scale, rotate_y),
        ), k);
    }
}

proof fn lemma_pow2_grows(j: nat, k: nat)
    requires
        j <= k,
    ensures
        pow2(j) <= pow2(k),
        j < k ==> pow2(j) < pow2(k),
        pow2(j) >= 1,
    decreases k,
{
    if k > 0 {
        if j < k {
            lemma_pow2_grows(j, (k - 1) as nat);
        } else {
            lemma_pow2_grows((k - 1) as nat, (k - 1) as nat);
        }
    }
}

/// On a square whose side is a power of two (up to 2^16), every index lands
/// inside the square.
pub proof fn lemma_hilbert_2d_in_square(index: u32, k: nat)
    requires
        k <= 16,
    ensures
        hilbert_walk(index, pow2(k) as u32, 1, 0, 0).0 < pow2(k),
        hilbert_walk(index, pow2(k) as u32, 1, 0, 0).1 < pow2(k),
{
    lemma_pow2_grows(0, k);
    lemma_pow2_grows(k, 16);
    assert(pow2(16) == 65536) by {
        reveal_with_fuel(pow2, 17);
    }
    assert(pow2(0) == 1);
    if pow2(k) == 1 {
        assert(hilbert_walk(index, 1, 1, 0, 0) == (0u32, 0u32));
    } else {
        lemma_hilbert_walk_bounded(index, pow2(k) as u32, 1, 0, 0, k);
    }
}

/// Bit `i` of the compacted byte is bit `2 * i` of the value: the even bits
/// of a Morton code, packed.
pub open spec fn even_bits_spec(value: u16) -> u8 {
    ((value & 1) | ((value >> 1) & 2) | ((value >> 2) & 4) | ((value >> 3) & 8) | ((value >> 4)
        & 16) | ((value >> 5) & 32) | ((value >> 6) & 64) | ((value >> 7) & 128)) as u8
}

/// Packs the even bits of a 16-bit Morton code into one byte.
pub fn compact_even_bits(value: u16) -> (compacted: u8)
    ensures
        compacted == even_bits_spec(value),
        forall|i: u16| i < 8 ==> #[trigger] bit_of(compacted as u16, i) == bit_of(value, (2 * i) as u16),
{
    let mut remaining = value;
    let mut compacted: u16 = 0;
    let mut bit: u16 = 0;
    assert(value >> 0u16 == value) by (bit_vector);
    while bit < 8
        invariant
            bit <= 8,
            remaining == value >> ((2 * bit) as u16),
            compacted == value_even_bits_below(value, bit),
        decreases 8 - bit,
    {
        if remaining & 1 != 0 {
            compacted = compacted | (1u16 << bit);
        }
        proof {
            lemma_even_bits_step(value, bit, remaining, compacted);
        }
        remaining = remaining >> 2;
        bit = bit + 1;
        proof {
            lemma_shift_step(value, bit);
        }
    }
    proof {
        lemma_even_bits_full(value);
    }
    compacted as u8
}

/// Bit `i` of `v`.
pub open spec fn bit_of(v: u16, i: u16) -> u16 {
    (v >> i) & 1
}

/// The even bits of `value` below output bit `n`, packed.
pub open spec fn value_even_bits_below(value: u16, n: u16) -> u16
    decreases n,
{
    if n == 0 {
        0
    } else {
        let m = (n - 1) as u16;
        value_even_bits_below(value, m) | (((value >> ((2 * m) as u16)) & 1) << m)
    }
}

proof fn lemma_even_bits_step(value: u16, bit: u16, remaining: u16, compacted_before: u16)
    requires
        bit < 8,
        remaining == value >> ((2 * bit) as u16),
    ensures
        (if remaining & 1 != 0 { value_even_bits_below(value, bit) | (1u16 << bit) } else {
            value_even_bits_below(value, bit)
        }) == value_even_bits_below(value, (bit + 1) as u16),
{
    let b = bit;
    let prev = value_even_bits_below(value, b);
    assert(value_even_bits_below(value, (b + 1) as u16) == prev | (((value >> ((2 * b) as u16))
        & 1) << b));
    assert(remaining & 1 != 0 ==> prev | (1u16 << b) == prev | ((remaining & 1) << b)) by (bit_vector)
        requires
            b < 8,
    ;
    assert(remaining & 1 == 0 ==> prev == prev | ((remaining & 1) << b)) by (bit_vector);
}

proof fn lemma_shift_step(value: u16, bit: u16)
    requires
        1 <= bit <= 8,
    ensures
        (value >> ((2 * (bit - 1)) as u16)) >> 2u16 == value >> ((2 * bit) as u16),
{
    let b = (bit - 1) as u16;
    let lo = (2 * b) as u16;
    let hi = (2 * bit) as u16;
    assert(hi == lo + 2);
    assert((value >> lo) >> 2u16 == value >> hi) by (bit_vector)
        requires
            lo < 16,
            hi == lo + 2,
    ;
}

proof fn lemma_even_bits_full(value: u16)
    ensures
        value_even_bits_below(value, 8) == even_bits_spec(value) as u16,
        even_bits_spec(value) as u16 == value_even_bits_below(value, 8),
        forall|i: u16|
            i < 8 ==> #[trigger] bit_of(value_even_bits_below(value, 8), i) == bit_of(value, (2 * i) as u16),
{
    assert(value >> 0u16 == value) by (bit_vector);
    assert(value_even_bits_below(value, 0u16) == 0);
    assert(value_even_bits_below(value, 1u16) == value_even_bits_below(value, 0u16) | (((value >> 0u16) & 1) << 0u16));
    assert(value_even_bits_below(value, 2u16) == value_even_bits_below(value, 1u16) | (((value >> 2u16) & 1) << 1u16));
    assert(value_even_bits_below(value, 3u16) == value_even_bits_below(value, 2u16) | (((value >> 4u16) & 1) << 2u16));
    assert(value_even_bits_below(value, 4u16) == value_even_bits_below(value, 3u16) | (((value >> 6u16) & 1) << 3u16));
    assert(value_even_bits_below(value, 5u16) == value_even_bits_below(value, 4u16) | (((value >> 8u16) & 1) << 4u16));
    assert(value_even_bits_below(value, 6u16) == value_even_bits_below(value, 5u16) | (((value >> 10u16) & 1) << 5u16));
    assert(value_even_bits_below(value, 7u16) == value_even_bits_below(value, 6u16) | (((value >> 12u16) & 1) << 6u16));
    assert(value_even_bits_below(value, 8u16) == value_even_bits_below(value, 7u16) | (((value >> 14u16) & 1) << 7u16));
    let full = value_even_bits_below(value, 8);
    assert(full == (((((((((0u16 | ((value & 1) << 0u16)) | (((value >> 2u16) & 1) << 1u16)) | ((
    (value >> 4u16) & 1) << 2u16)) | (((value >> 6u16) & 1) << 3u16)) | (((value >> 8u16) & 1)
        << 4u16)) | (((value >> 10u16) & 1) << 5u16)) | (((value >> 12u16) & 1) << 6u16)) | (((
    value >> 14u16) & 1) << 7u16))));
    assert((((((((((0u16 | ((value & 1) << 0u16)) | (((value >> 2u16) & 1) << 1u16)) | (((value
        >> 4u16) & 1) << 2u16)) | (((value >> 6u16) & 1) << 3u16)) | (((value >> 8u16) & 1)
        << 4u16)) | (((value >> 10u16) & 1) << 5u16)) | (((value >> 12u16) & 1) << 6u16)) | (((
    value >> 14u16) & 1) << 7u16))) == ((value & 1) | ((value >> 1) & 2) | ((value >> 2) & 4) | ((
    value >> 3) & 8) | ((value >> 4) & 16) | ((value >> 5) & 32) | ((value >> 6) & 64) | ((value
        >> 7) & 128))) by (bit_vector);
    assert(((value & 1) | ((value >> 1) & 2) | ((value >> 2) & 4) | ((value >> 3) & 8) | ((value
        >> 4) & 16) | ((value >> 5) & 32) | ((value >> 6) & 64) | ((value >> 7) & 128)) < 256) by (
    bit_vector);
    assert forall|i: u16| i < 8 implies #[trigger] bit_of(full, i) == bit_of(value, (2 * i) as u16) by {
        assert(i < 8 ==> ((((((((((0u16 | ((value & 1) << 0u16)) | (((value >> 2u16) & 1) << 1u16))
            | (((value >> 4u16) & 1) << 2u16)) | (((value >> 6u16) & 1) << 3u16)) | (((value
            >> 8u16) & 1) << 4u16)) | (((value >> 10u16) & 1) << 5u16)) | (((value >> 12u16) & 1)
            << 6u16)) | (((value >> 14u16) & 1) << 7u16)) >> i) & 1) == ((value >> (2 * i)) & 1))
            by (bit_vector);
    }
}

/// Rounds `numerator / 255` to the nearest integer (ties cannot occur: an
/// odd denominator never leaves exactly one half).
pub open spec fn round_over_255(numerator: int) -> int {
    (2 * numerator + 255) / 510
}

/// One channel of the value ramp: the exact rounding of
/// `start + (end - start) * value / 255`.
pub open spec fn ramp_channel(start: int, end: int, value: u8) -> u8 {
    round_over_255(start * 255 + (end - start) * value) as u8
}

/// The byte-value colour ramp from teal (value 0) to amber (value 255), with
/// fixed alpha 210.
pub open spec fn value_color_spec(value: u8) -> [u8; 4] {
    [ramp_channel(34, 247, value), ramp_channel(190, 232, value), ramp_channel(220, 74, value), 210u8]
}

fn ramp(start: u32, end: u32, value: u8) -> (channel: u8)
    requires
        start <= 255,
        end <= 255,
    ensures
        channel == ramp_channel(start as int, end as int, value),
{
    let v = value as u32;
    assert(start * 255 <= 65025 && v <= 255) by (nonlinear_arith)
        requires
            start <= 255,
            v == value as u32,
    ;
    let base = start * 255;
    let numerator: u32 = if end >= start {
        assert((end - start) * v <= 255 * 255 - base) by (nonlinear_arith)
            requires
                end <= 255,
                start <= end,
                v <= 255,
                base == start * 255,
        ;
        base + (end - start) * v
    } else {
        assert((start - end) * v <= base) by (nonlinear_arith)
            requires
                end < start,
                v <= 255,
                base == start * 255,
        ;
        base - (start - end) * v
    };
    assert(numerator == start * 255 + (end - start) * v) by (nonlinear_arith)
        requires
            base == start * 255,
            end >= start ==> numerator == base + (end - start) * v,
            end < start ==> numerator == base - (start - end) * v,
    ;
    assert(numerator <= 65025);
    assert((2 * numerator + 255) / 510 <= 255);
    ((2 * numerator + 255) / 510) as u8
}

/// Colour of a byte value on the teal-to-amber ramp.
pub fn value_color(value: u8) -> (rgba: [u8; 4])
    ensures
        rgba == value_color_spec(value),
{
    [ramp(34, 247, value), ramp(190, 232, value), ramp(220, 74, value), 210]
}

} // verus!
