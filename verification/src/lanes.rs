//! Lanes of a 64-bit vector half: the byte, halfword and word elements that
//! SIMD instructions operate on, and the facts that relate a value to its
//! lanes.

use vstd::prelude::*;

verus! {

/// Number of set bits among the low `n` bits of `x`.
pub open spec fn ones(x: u64, n: nat) -> nat
    decreases n,
{
    if n == 0 {
        0
    } else {
        ones(x, (n - 1) as nat) + if bit(x, (n - 1) as u64) {
            1nat
        } else {
            0nat
        }
    }
}

/// At most `n` of the low `n` bits are set.
pub proof fn lemma_ones_le(x: u64, n: nat)
    ensures
        ones(x, n) <= n,
    decreases n,
{
    if n > 0 {
        lemma_ones_le(x, (n - 1) as nat);
    }
}

/// Byte lane `i` (0 = least significant) of `x`.
pub open spec fn lane8(x: u64, i: u64) -> u64 {
    (x >> ((i * 8) as u64)) & 0xff
}

/// Halfword lane `i` of `x`.
pub open spec fn lane16(x: u64, i: u64) -> u64 {
    (x >> ((i * 16) as u64)) & 0xffff
}

/// Low word of `x`.
pub open spec fn lo32(x: u64) -> u32 {
    x as u32
}

/// High word of `x`.
pub open spec fn hi32(x: u64) -> u32 {
    (x >> 32u64) as u32
}

/// Bit `i` of `x`.
pub open spec fn bit(x: u64, i: u64) -> bool {
    (x >> i) & 1 == 1
}

/// Writing `v` into an empty byte lane `i` sets that lane and keeps the
/// others; every lane of 0 is 0.
pub proof fn lemma_put_lane8(r: u64, v: u64, i: u64, j: u64)
    by (bit_vector)
    requires
        i < 8,
        j < 8,
        v <= 0xff,
    ensures
        lane8(r, i) == 0 ==> lane8(r | (v << ((i * 8) as u64)), j) == if j == i {
            v
        } else {
            lane8(r, j)
        },
        lane8(0, j) == 0,
{
}

/// Writing `v` into an empty halfword lane `i` sets that lane and keeps the
/// others; every lane of 0 is 0.
pub proof fn lemma_put_lane16(r: u64, v: u64, i: u64, j: u64)
    by (bit_vector)
    requires
        i < 4,
        j < 4,
        v <= 0xffff,
    ensures
        lane16(r, i) == 0 ==> lane16(r | (v << ((i * 16) as u64)), j) == if j == i {
            v
        } else {
            lane16(r, j)
        },
        lane16(0, j) == 0,
{
}

/// The byte lanes of `r` below `i` hold `want`, the others are 0.
pub open spec fn lanes8_upto(r: u64, i: u64, want: spec_fn(u64) -> u64) -> bool {
    forall|j: u64| j < 8 ==> #[trigger] lane8(r, j) == if j < i {
        want(j)
    } else {
        0
    }
}

/// The halfword lanes of `r` below `i` hold `want`, the others are 0.
pub open spec fn lanes16_upto(r: u64, i: u64, want: spec_fn(u64) -> u64) -> bool {
    forall|j: u64| j < 4 ==> #[trigger] lane16(r, j) == if j < i {
        want(j)
    } else {
        0
    }
}

/// Filling byte lane `i` with the wanted value extends the filled prefix.
pub proof fn lemma_lane8_next(r: u64, v: u64, i: u64, want: spec_fn(u64) -> u64)
    requires
        i < 8,
        v <= 0xff,
        v == want(i),
        lanes8_upto(r, i, want),
    ensures
        lanes8_upto(r | (v << ((i * 8) as u64)), (i + 1) as u64, want),
{
    assert(lane8(r, i) == 0);
    assert forall|j: u64| j < 8 implies #[trigger] lane8(r | (v << ((i * 8) as u64)), j) == if j
        < i + 1 {
        want(j)
    } else {
        0
    } by {
        lemma_put_lane8(r, v, i, j);
    }
}

/// A byte lane whose wanted value is 0 is filled by leaving it alone.
pub proof fn lemma_lane8_skip(r: u64, i: u64, want: spec_fn(u64) -> u64)
    requires
        i < 8,
        want(i) == 0,
        lanes8_upto(r, i, want),
    ensures
        lanes8_upto(r, (i + 1) as u64, want),
{
}

/// Nothing is filled in 0.
pub proof fn lemma_lanes8_start(want: spec_fn(u64) -> u64)
    ensures
        lanes8_upto(0, 0, want),
{
    assert forall|j: u64| j < 8 implies #[trigger] lane8(0, j) == 0 by {
        lemma_put_lane8(0, 0, 0, j);
    }
}

/// Filling halfword lane `i` with the wanted value extends the filled prefix.
pub proof fn lemma_lane16_next(r: u64, v: u64, i: u64, want: spec_fn(u64) -> u64)
    requires
        i < 4,
        v <= 0xffff,
        v == want(i),
        lanes16_upto(r, i, want),
    ensures
        lanes16_upto(r | (v << ((i * 16) as u64)), (i + 1) as u64, want),
{
    assert(lane16(r, i) == 0);
    assert forall|j: u64| j < 4 implies #[trigger] lane16(r | (v << ((i * 16) as u64)), j) == if j
        < i + 1 {
        want(j)
    } else {
        0
    } by {
        lemma_put_lane16(r, v, i, j);
    }
}

/// A halfword lane whose wanted value is 0 is filled by leaving it alone.
pub proof fn lemma_lane16_skip(r: u64, i: u64, want: spec_fn(u64) -> u64)
    requires
        i < 4,
        want(i) == 0,
        lanes16_upto(r, i, want),
    ensures
        lanes16_upto(r, (i + 1) as u64, want),
{
}

/// Nothing is filled in 0.
pub proof fn lemma_lanes16_start(want: spec_fn(u64) -> u64)
    ensures
        lanes16_upto(0, 0, want),
{
    assert forall|j: u64| j < 4 implies #[trigger] lane16(0, j) == 0 by {
        lemma_put_lane16(0, 0, 0, j);
    }
}

/// The two words of a value built from a low and a high word; the signed
/// and narrowed views of a value's words.
pub proof fn lemma_words(lo: u32, hi: u32, x: u64)
    by (bit_vector)
    ensures
        lo32((lo as u64) | ((hi as u64) << 32u64)) == lo,
        hi32((lo as u64) | ((hi as u64) << 32u64)) == hi,
        x as i32 == (x as u32) as i32,
        ((x >> 32u64) as i32) == ((x >> 32u64) as u32) as i32,
        x as u32 == x % 0x1_0000_0000,
        (x >> 32u64) as u32 == x / 0x1_0000_0000,
        x & 0xffff_ffff == (x as u32) as u64,
        x >> 32u64 == ((x >> 32u64) as u32) as u64,
        (x as u8) as u64 == x & 0xff,
        (x as u16) as u64 == x & 0xffff,
        ((x as u32) as u16) as u64 == x & 0xffff,
        ((x as u32) & 0xffff) as u64 == x & 0xffff,
        x >> 0u64 == x,
        (x as i32) as u32 == x as u32,
        ((x >> 32u64) as i32) as u32 == (x >> 32u64) as u32,
        !0u32 == 0xffff_ffffu32,
        !0u64 == 0xffff_ffff_ffff_ffffu64,
        x as i16 == (x as u16) as i16,
        x as i8 == (x as u8) as i8,
{
}

/// The halfword lanes of a value built from four halfwords.
pub proof fn lemma_join16(h0: u64, h1: u64, h2: u64, h3: u64)
    by (bit_vector)
    requires
        h0 <= 0xffff,
        h1 <= 0xffff,
        h2 <= 0xffff,
        h3 <= 0xffff,
    ensures
        lane16(h0 | (h1 << 16u64) | (h2 << 32u64) | (h3 << 48u64), 0) == h0,
        lane16(h0 | (h1 << 16u64) | (h2 << 32u64) | (h3 << 48u64), 1) == h1,
        lane16(h0 | (h1 << 16u64) | (h2 << 32u64) | (h3 << 48u64), 2) == h2,
        lane16(h0 | (h1 << 16u64) | (h2 << 32u64) | (h3 << 48u64), 3) == h3,
        lane16(h0 | (h1 << 16u64), 0) == h0,
        lane16(h0 | (h1 << 16u64), 1) == h1,
        lane16(h0 | (h1 << 16u64), 2) == 0,
        lane16(h0 | (h1 << 16u64), 3) == 0,
{
}

/// Masking with all-ones is reduction modulo the matching power of two.
pub proof fn lemma_masks(x: u64)
    ensures
        x & 0xff == x % 0x100,
        x & 0xffff == x % 0x1_0000,
{
    vstd::bits::lemma_u64_low_bits_mask_is_mod(x, 8);
    vstd::bits::lemma_u64_low_bits_mask_is_mod(x, 16);
    vstd::bits::lemma_low_bits_mask_values();
    vstd::arithmetic::power2::lemma2_to64();
}

/// Shifting right never makes a value larger.
pub proof fn lemma_shr_le(x: u64, s: u64)
    requires
        s < 64,
    ensures
        x >> s <= x,
{
    vstd::bits::lemma_u64_shr_is_div(x, s);
    vstd::arithmetic::power2::lemma_pow2_pos(s as nat);
    vstd::arithmetic::div_mod::lemma_div_is_ordered_by_denominator(x as int, 1, vstd::arithmetic::power2::pow2(s as nat) as int);
}

/// A value is determined by its byte lanes, by its halfword lanes and by
/// its two words.
proof fn lemma_lanes_determine(x: u64, y: u64)
    by (bit_vector)
    ensures
        (lane8(x, 0) == lane8(y, 0) && lane8(x, 1) == lane8(y, 1) && lane8(x, 2) == lane8(y, 2)
            && lane8(x, 3) == lane8(y, 3) && lane8(x, 4) == lane8(y, 4) && lane8(x, 5) == lane8(y, 5)
            && lane8(x, 6) == lane8(y, 6) && lane8(x, 7) == lane8(y, 7)) ==> x == y,
        (lane16(x, 0) == lane16(y, 0) && lane16(x, 1) == lane16(y, 1) && lane16(x, 2) == lane16(
            y,
            2,
        ) && lane16(x, 3) == lane16(y, 3)) ==> x == y,
        (lo32(x) == lo32(y) && hi32(x) == hi32(y)) ==> x == y,
{
}

/// Two values with the same byte lanes are equal.
pub proof fn law_lanes8_determine(x: u64, y: u64)
    requires
        forall|i: u64| i < 8 ==> lane8(x, i) == lane8(y, i),
    ensures
        x == y,
{
    assert(lane8(x, 0) == lane8(y, 0) && lane8(x, 1) == lane8(y, 1) && lane8(x, 2) == lane8(y, 2)
        && lane8(x, 3) == lane8(y, 3) && lane8(x, 4) == lane8(y, 4) && lane8(x, 5) == lane8(y, 5)
        && lane8(x, 6) == lane8(y, 6) && lane8(x, 7) == lane8(y, 7));
    lemma_lanes_determine(x, y);
}

/// Two values with the same halfword lanes are equal.
pub proof fn law_lanes16_determine(x: u64, y: u64)
    requires
        forall|i: u64| i < 4 ==> lane16(x, i) == lane16(y, i),
    ensures
        x == y,
{
    assert(lane16(x, 0) == lane16(y, 0) && lane16(x, 1) == lane16(y, 1) && lane16(x, 2) == lane16(
        y,
        2,
    ) && lane16(x, 3) == lane16(y, 3));
    lemma_lanes_determine(x, y);
}

/// Two values with the same words are equal.
pub proof fn law_words_determine(x: u64, y: u64)
    requires
        lo32(x) == lo32(y),
        hi32(x) == hi32(y),
    ensures
        x == y,
{
    lemma_lanes_determine(x, y);
}

/// Value of a word read as a signed word.
pub open spec fn sx32(x: u32) -> int {
    if x >= 0x8000_0000 {
        x - 0x1_0000_0000
    } else {
        x as int
    }
}

/// Value of a byte read as a signed byte.
pub open spec fn sx8(b: u64) -> int {
    if b >= 0x80 {
        b - 0x100
    } else {
        b as int
    }
}

/// Value of a doubleword read as a signed doubleword.
pub open spec fn sx64(x: u64) -> int {
    if x >= 0x8000_0000_0000_0000 {
        x - 0x1_0000_0000_0000_0000
    } else {
        x as int
    }
}

/// Value of a halfword read as a signed halfword.
pub open spec fn sx16(h: u64) -> int {
    if h >= 0x8000 {
        h - 0x1_0000
    } else {
        h as int
    }
}

/// Signed readings of words and halfwords, and the unsigned readings of
/// negative signed values.
pub proof fn lemma_sign_view(x: u32, h: u16, i: i32, v: i64, w: u64)
    by (bit_vector)
    ensures
        (x as i32) as int == if x >= 0x8000_0000 {
            x - 0x1_0000_0000
        } else {
            x as int
        },
        (h as i16) as int == if h >= 0x8000 {
            h - 0x1_0000
        } else {
            h as int
        },
        (i as u32) as int == if i < 0 {
            i + 0x1_0000_0000
        } else {
            i as int
        },
        (v as u64) as int == if v < 0 {
            v + 0x1_0000_0000_0000_0000
        } else {
            v as int
        },
        (i as u32) as i32 == i,
        (w as i64) as int == if w >= 0x8000_0000_0000_0000 {
            w - 0x1_0000_0000_0000_0000
        } else {
            w as int
        },
{
}

/// The signed reading of a byte.
pub proof fn lemma_byte_sign_view(b: u64)
    by (bit_vector)
    requires
        b <= 0xff,
    ensures
        ((b as u8) as i8) as int == if b >= 0x80 {
            b - 0x100
        } else {
            b as int
        },
{
}

/// Setting a clear bit `k` to `b` sets that bit and keeps the others; no
/// bit of 0 is set; a bit read from a value is 0 or 1.
pub proof fn lemma_put_bit(r: u64, b: u64, k: u64, j: u64, x: u64)
    by (bit_vector)
    requires
        k < 64,
        j < 64,
        b <= 1,
    ensures
        !bit(r, k) ==> bit(r | (b << k), j) == if j == k {
            b == 1
        } else {
            bit(r, j)
        },
        !bit(0, j),
        (x >> j) & 1 <= 1,
{
}

/// Bitwise select in the three operand orders of BIT, BIF and BSL: each
/// bit comes from `n` where the mask bit is set and from `d` elsewhere.
pub proof fn lemma_bitsel(d: u64, n: u64, m: u64, j: u64)
    by (bit_vector)
    requires
        j < 64,
    ensures
        bit((d & !m) | (n & m), j) == if bit(m, j) {
            bit(n, j)
        } else {
            bit(d, j)
        },
        bit((d & m) | (n & !m), j) == if bit(m, j) {
            bit(d, j)
        } else {
            bit(n, j)
        },
        bit((n & d) | (m & !d), j) == if bit(d, j) {
            bit(n, j)
        } else {
            bit(m, j)
        },
{
}

/// Swapping the bytes of each halfword, on a doubleword and on a word.
pub proof fn lemma_rev16(a: u64, i: u64)
    by (bit_vector)
    requires
        i < 8,
    ensures
        lane8(((a & 0x00ff_00ff_00ff_00ff) << 8u64) | ((a & 0xff00_ff00_ff00_ff00) >> 8u64), i)
            == lane8(a, i ^ 1),
        lane8(
            (((((a as u32) & 0x00ff_00ff) << 8u32) | (((a as u32) & 0xff00_ff00) >> 8u32))
                as u64),
            i,
        ) == if i < 4 {
            lane8(a, i ^ 1)
        } else {
            0
        },
{
}

} // verus!
