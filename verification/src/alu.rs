//! Scalar integer helpers called from translated code: division and bit
//! and byte reversal.

use vstd::prelude::*;

use crate::lanes::{
    bit, lane8, lanes8_upto, law_lanes8_determine, lemma_lane8_next, lemma_lanes8_start, lemma_masks, lemma_put_bit,
    lemma_rev16, lemma_words, lo32,
};

verus! {

/// Quotient of `x / d` rounded toward zero, as A64 `SDIV` computes it.
pub open spec fn trunc_div(x: int, d: int) -> int {
    let q = (if x < 0 {
        -x
    } else {
        x
    }) / (if d < 0 {
        -d
    } else {
        d
    });
    if (x < 0) != (d < 0) {
        -q
    } else {
        q
    }
}

/// A quotient rounded toward zero stays in the signed range of its
/// operands, except for the most negative value divided by -1.
proof fn lemma_trunc_div_range(x: int, d: int, lim: int)
    requires
        lim > 0,
        -lim <= x < lim,
        -lim <= d < lim,
        d != 0,
        !(x == -lim && d == -1),
    ensures
        -lim <= trunc_div(x, d) < lim,
{
    let ax = if x < 0 {
        -x
    } else {
        x
    };
    let ad = if d < 0 {
        -d
    } else {
        d
    };
    vstd::arithmetic::div_mod::lemma_div_is_ordered_by_denominator(ax, 1, ad);
    if ad >= 2 {
        vstd::arithmetic::div_mod::lemma_div_is_ordered_by_denominator(ax, 2, ad);
    }
    assert(ax / 1 == ax);
}

/// Unsigned 64-bit division; division by zero gives 0.
pub fn helper_udiv64(n: u64, m: u64) -> (r: u64)
    ensures
        r == if m == 0 {
            0
        } else {
            n / m
        },
{
    if m == 0 {
        0
    } else {
        n / m
    }
}

/// Unsigned 32-bit division of the low words; division by zero gives 0.
pub fn helper_udiv32(n: u64, m: u64) -> (r: u64)
    ensures
        r == if lo32(m) == 0 {
            0
        } else {
            lo32(n) / lo32(m)
        },
{
    let n = n as u32;
    let m = m as u32;
    if m == 0 {
        0
    } else {
        (n / m) as u64
    }
}

/// Signed 64-bit division rounding toward zero; division by zero gives 0.
/// The one quotient that does not fit, the most negative value divided by
/// -1, is left out.
pub fn helper_sdiv64(n: u64, m: u64) -> (r: u64)
    requires
        !((n as i64) == i64::MIN && (m as i64) == -1),
    ensures
        r == if (m as i64) == 0 {
            0
        } else {
            trunc_div(n as i64 as int, m as i64 as int) as u64
        },
{
    let n = n as i64;
    let m = m as i64;
    if m != 0 {
        proof {
            lemma_trunc_div_range(n as int, m as int, 0x8000_0000_0000_0000);
        }
    }
    if m == 0 {
        0
    } else {
        match n.checked_div(m) {
            Some(q) => {
                assert(q as int == trunc_div(n as int, m as int));
                q as u64
            },
            None => 0,
        }
    }
}

/// Signed 32-bit division of the low words rounding toward zero, sign
/// extended to 64 bits; division by zero gives 0. The most negative word
/// divided by -1 is left out.
pub fn helper_sdiv32(n: u64, m: u64) -> (r: u64)
    requires
        !((lo32(n) as i32) == i32::MIN && (lo32(m) as i32) == -1),
    ensures
        r == if (lo32(m) as i32) == 0 {
            0
        } else {
            trunc_div(lo32(n) as i32 as int, lo32(m) as i32 as int) as u64
        },
{
    let n = n as u32 as i32;
    let m = m as u32 as i32;
    if m != 0 {
        proof {
            lemma_trunc_div_range(n as int, m as int, 0x8000_0000);
        }
    }
    if m == 0 {
        0
    } else {
        match n.checked_div(m) {
            Some(q) => q as i64 as u64,
            None => 0,
        }
    }
}

/// Reverses the order of the bits of `a`.
pub fn helper_rbit64(a: u64) -> (r: u64)
    ensures
        forall|j: u64| j < 64 ==> #[trigger] bit(r, j) == bit(a, (63 - j) as u64),
{
    let mut r = 0u64;
    let mut i: u64 = 0;
    proof {
        assert forall|j: u64| j < 64 implies !#[trigger] bit(0, j) by {
            lemma_put_bit(0, 0, 0, j, a);
        }
    }
    while i < 64
        invariant
            i <= 64,
            forall|j: u64|
                j < 64 ==> #[trigger] bit(r, j) == if j >= 64 - i {
                    bit(a, (63 - j) as u64)
                } else {
                    false
                },
        decreases 64 - i,
    {
        let b = (a >> i) & 1;
        proof {
            lemma_put_bit(0, 0, 0, i, a);
            assert forall|j: u64| j < 64 implies #[trigger] bit(r | (b << (63 - i)), j) == if j >= 64
                - (i + 1) {
                bit(a, (63 - j) as u64)
            } else {
                false
            } by {
                lemma_put_bit(r, b, (63 - i) as u64, j, a);
            }
        }
        r |= b << (63 - i);
        i += 1;
    }
    r
}

/// Reverses the order of the low 32 bits of `a`; the high bits are 0.
pub fn helper_rbit32(a: u64) -> (r: u64)
    ensures
        forall|j: u64| j < 64 ==> #[trigger] bit(r, j) == if j < 32 {
            bit(a, (31 - j) as u64)
        } else {
            false
        },
{
    let mut r = 0u64;
    let mut i: u64 = 0;
    proof {
        assert forall|j: u64| j < 64 implies !#[trigger] bit(0, j) by {
            lemma_put_bit(0, 0, 0, j, a);
        }
    }
    while i < 32
        invariant
            i <= 32,
            forall|j: u64|
                j < 64 ==> #[trigger] bit(r, j) == if 32 - i <= j < 32 {
                    bit(a, (31 - j) as u64)
                } else {
                    false
                },
        decreases 32 - i,
    {
        let b = (a >> i) & 1;
        proof {
            lemma_put_bit(0, 0, 0, i, a);
            assert forall|j: u64| j < 64 implies #[trigger] bit(r | (b << (31 - i)), j) == if 32 - (
            i + 1) <= j < 32 {
                bit(a, (31 - j) as u64)
            } else {
                false
            } by {
                lemma_put_bit(r, b, (31 - i) as u64, j, a);
            }
        }
        r |= b << (31 - i);
        i += 1;
    }
    r
}

/// Lanes of `rev16_64`: the two bytes of every halfword swapped.
pub open spec fn rev16_64_lanes(a: u64) -> spec_fn(u64) -> u64 {
    |i: u64| lane8(a, i ^ 1)
}

/// Swaps the two bytes of every halfword of `a`.
pub fn helper_rev16_64(a: u64) -> (r: u64)
    ensures
        lanes8_upto(r, 8, rev16_64_lanes(a)),
{
    let r = ((a & 0x00ff_00ff_00ff_00ff) << 8) | ((a & 0xff00_ff00_ff00_ff00) >> 8);
    proof {
        assert forall|j: u64| j < 8 implies #[trigger] lane8(r, j) == rev16_64_lanes(a)(j) by {
            lemma_rev16(a, j);
        }
    }
    r
}

/// Lanes of `rev16_32`: the two bytes of each halfword of the low word
/// swapped; the high word is 0.
pub open spec fn rev16_32_lanes(a: u64) -> spec_fn(u64) -> u64 {
    |i: u64|
        if i < 4 {
            lane8(a, i ^ 1)
        } else {
            0u64
        }
}

/// Swaps the two bytes of each halfword of the low word of `a`.
pub fn helper_rev16_32(a: u64) -> (r: u64)
    ensures
        lanes8_upto(r, 8, rev16_32_lanes(a)),
{
    let x = a as u32;
    let y = ((x & 0x00ff_00ff) << 8) | ((x & 0xff00_ff00) >> 8);
    proof {
        assert forall|j: u64| j < 8 implies #[trigger] lane8(y as u64, j) == rev16_32_lanes(a)(j) by {
            lemma_rev16(a, j);
        }
    }
    y as u64
}

/// Lanes of `rev32_64`: the bytes of each word in reverse order.
pub open spec fn rev32_64_lanes(a: u64) -> spec_fn(u64) -> u64 {
    |i: u64| lane8(a, i ^ 3)
}

/// Reverses the order of the bytes within each word of `a`.
pub fn helper_rev32_64(a: u64) -> (r: u64)
    ensures
        lanes8_upto(r, 8, rev32_64_lanes(a)),
{
    let mut r = 0u64;
    let mut i: u64 = 0;
    proof {
        lemma_lanes8_start(rev32_64_lanes(a));
    }
    while i < 8
        invariant
            i <= 8,
            lanes8_upto(r, i, rev32_64_lanes(a)),
        decreases 8 - i,
    {
        let src = i ^ 3;
        proof {
            assert(src < 8) by (bit_vector)
                requires
                    i < 8,
                    src == i ^ 3,
            ;
            lemma_masks(a >> (src * 8));
        }
        let v = (a >> (src * 8)) & 0xff;
        proof {
            lemma_lane8_next(r, v, i, rev32_64_lanes(a));
        }
        r |= v << (i * 8);
        i += 1;
    }
    r
}

// ---------------------------------------------------------------------
// Laws
// ---------------------------------------------------------------------

/// Reversing the bits twice puts every bit back in its place.
pub proof fn law_rbit64_twice(a: u64, r1: u64, r2: u64)
    requires
        forall|j: u64| j < 64 ==> #[trigger] bit(r1, j) == bit(a, (63 - j) as u64),
        forall|j: u64| j < 64 ==> #[trigger] bit(r2, j) == bit(r1, (63 - j) as u64),
    ensures
        forall|j: u64| j < 64 ==> #[trigger] bit(r2, j) == bit(a, j),
{
    assert forall|j: u64| j < 64 implies #[trigger] bit(r2, j) == bit(a, j) by {
        assert(bit(r1, (63 - j) as u64) == bit(a, (63 - (63 - j)) as u64));
    }
}

/// Swapping the bytes of each halfword twice gives the value back.
pub proof fn law_rev16_twice(a: u64, r1: u64, r2: u64)
    requires
        lanes8_upto(r1, 8, rev16_64_lanes(a)),
        lanes8_upto(r2, 8, rev16_64_lanes(r1)),
    ensures
        r2 == a,
{
    assert forall|i: u64| i < 8 implies lane8(r2, i) == lane8(a, i) by {
        assert(lane8(r2, i) == rev16_64_lanes(r1)(i));
        assert((i ^ 1) < 8 && ((i ^ 1) ^ 1) == i) by (bit_vector)
            requires
                i < 8,
        ;
        assert(lane8(r1, i ^ 1) == rev16_64_lanes(a)(i ^ 1));
    }
    law_lanes8_determine(r2, a);
}

} // verus!
