//! Integer SIMD helpers called from translated code: each works on one
//! 64-bit half of a vector register, lane by lane.

use vstd::prelude::*;

use crate::lanes::{
    bit, hi32, lane16, lane8, lanes16_upto, sx8, sx64, lemma_byte_sign_view, lemma_bitsel, lemma_sign_view, lo32, sx16, sx32, lanes8_upto, lemma_join16, lemma_lane16_next, lemma_lane16_skip,
    lemma_lane8_next, lemma_lane8_skip, lemma_lanes16_start, lemma_lanes8_start, lemma_masks,
    law_lanes16_determine, law_lanes8_determine, law_words_determine, lemma_ones_le,
    lemma_put_lane16, lemma_shr_le, lemma_words, ones,
};

verus! {

/// Lanes of `cmeq8`: each byte is all ones where the bytes of `a` and `b` are equal, else 0.
pub open spec fn cmeq8_lanes(a: u64, b: u64) -> spec_fn(u64) -> u64 {
    |i: u64|
        if lane8(a, i) == lane8(b, i) {
            0xffu64
        } else {
            0u64
        }
}

/// Each byte is all ones where the bytes of `a` and `b` are equal, else 0.
pub fn helper_cmeq8(a: u64, b: u64) -> (r: u64)
    ensures
        lanes8_upto(r, 8, cmeq8_lanes(a, b)),
{
    let mut r = 0u64;
    let mut i: u64 = 0;
    proof {
        lemma_lanes8_start(cmeq8_lanes(a, b));
    }
    while i < 8
        invariant
            i <= 8,
            lanes8_upto(r, i, cmeq8_lanes(a, b)),
        decreases 8 - i,
    {
        let ab = (a >> (i * 8)) & 0xff;
        let bb = (b >> (i * 8)) & 0xff;
        if ab == bb {
            proof {
                lemma_lane8_next(r, 0xff, i, cmeq8_lanes(a, b));
            }
            r |= 0xffu64 << (i * 8);
        } else {
            proof {
                lemma_lane8_skip(r, i, cmeq8_lanes(a, b));
            }
        }
        i += 1;
    }
    r
}

/// Lanes of `cmtst8`: each byte is all ones where the bytes of `a` and `b` share a set bit, else 0.
pub open spec fn cmtst8_lanes(a: u64, b: u64) -> spec_fn(u64) -> u64 {
    |i: u64|
        if lane8(a, i) & lane8(b, i) != 0 {
            0xffu64
        } else {
            0u64
        }
}

/// Each byte is all ones where the bytes of `a` and `b` share a set bit, else 0.
pub fn helper_cmtst8(a: u64, b: u64) -> (r: u64)
    ensures
        lanes8_upto(r, 8, cmtst8_lanes(a, b)),
{
    let mut r = 0u64;
    let mut i: u64 = 0;
    proof {
        lemma_lanes8_start(cmtst8_lanes(a, b));
    }
    while i < 8
        invariant
            i <= 8,
            lanes8_upto(r, i, cmtst8_lanes(a, b)),
        decreases 8 - i,
    {
        let ab = (a >> (i * 8)) & 0xff;
        let bb = (b >> (i * 8)) & 0xff;
        if ab & bb != 0 {
            proof {
                lemma_lane8_next(r, 0xff, i, cmtst8_lanes(a, b));
            }
            r |= 0xffu64 << (i * 8);
        } else {
            proof {
                lemma_lane8_skip(r, i, cmtst8_lanes(a, b));
            }
        }
        i += 1;
    }
    r
}

/// Lanes of `cmhs8`: each byte is all ones where the byte of `a` is at least that of `b` (unsigned), else 0.
pub open spec fn cmhs8_lanes(a: u64, b: u64) -> spec_fn(u64) -> u64 {
    |i: u64|
        if lane8(a, i) >= lane8(b, i) {
            0xffu64
        } else {
            0u64
        }
}

/// Each byte is all ones where the byte of `a` is at least that of `b` (unsigned), else 0.
pub fn helper_cmhs8(a: u64, b: u64) -> (r: u64)
    ensures
        lanes8_upto(r, 8, cmhs8_lanes(a, b)),
{
    let mut r = 0u64;
    let mut i: u64 = 0;
    proof {
        lemma_lanes8_start(cmhs8_lanes(a, b));
    }
    while i < 8
        invariant
            i <= 8,
            lanes8_upto(r, i, cmhs8_lanes(a, b)),
        decreases 8 - i,
    {
        let ab = (a >> (i * 8)) & 0xff;
        let bb = (b >> (i * 8)) & 0xff;
        if ab >= bb {
            proof {
                lemma_lane8_next(r, 0xff, i, cmhs8_lanes(a, b));
            }
            r |= 0xffu64 << (i * 8);
        } else {
            proof {
                lemma_lane8_skip(r, i, cmhs8_lanes(a, b));
            }
        }
        i += 1;
    }
    r
}

/// Lanes of `cmhi8`: each byte is all ones where the byte of `a` is above that of `b` (unsigned), else 0.
pub open spec fn cmhi8_lanes(a: u64, b: u64) -> spec_fn(u64) -> u64 {
    |i: u64|
        if lane8(a, i) > lane8(b, i) {
            0xffu64
        } else {
            0u64
        }
}

/// Each byte is all ones where the byte of `a` is above that of `b` (unsigned), else 0.
pub fn helper_cmhi8(a: u64, b: u64) -> (r: u64)
    ensures
        lanes8_upto(r, 8, cmhi8_lanes(a, b)),
{
    let mut r = 0u64;
    let mut i: u64 = 0;
    proof {
        lemma_lanes8_start(cmhi8_lanes(a, b));
    }
    while i < 8
        invariant
            i <= 8,
            lanes8_upto(r, i, cmhi8_lanes(a, b)),
        decreases 8 - i,
    {
        proof {
            lemma_masks(a >> (i * 8));
            lemma_masks(b >> (i * 8));
        }
        let va = ((a >> (i * 8)) & 0xff) as u8;
        let vb = ((b >> (i * 8)) & 0xff) as u8;
        if va > vb {
            proof {
                lemma_lane8_next(r, 0xff, i, cmhi8_lanes(a, b));
            }
            r |= 0xffu64 << (i * 8);
        } else {
            proof {
                lemma_lane8_skip(r, i, cmhi8_lanes(a, b));
            }
        }
        i += 1;
    }
    r
}

/// Lanes of `cmgt8`: each byte is all ones where the byte of `a` is greater than that of `b` as signed bytes, else 0.
pub open spec fn cmgt8_lanes(a: u64, b: u64) -> spec_fn(u64) -> u64 {
    |i: u64|
        if (lane8(a, i) as u8) as i8 > (lane8(b, i) as u8) as i8 {
            0xffu64
        } else {
            0u64
        }
}

/// CMGT on bytes compares them as two's-complement numbers: a byte of
/// 0x80 or more is that value minus 256.
pub proof fn law_cmgt8_signed(a: u64, b: u64, i: u64)
    ensures
        cmgt8_lanes(a, b)(i) == if sx8(lane8(a, i)) > sx8(lane8(b, i)) {
            0xffu64
        } else {
            0u64
        },
{
    assert(lane8(a, i) <= 0xff && lane8(b, i) <= 0xff) by (bit_vector);
    lemma_byte_sign_view(lane8(a, i));
    lemma_byte_sign_view(lane8(b, i));
}

/// Each byte is all ones where the byte of `a` is greater than that of `b` as signed bytes, else 0.
pub fn helper_cmgt8(a: u64, b: u64) -> (r: u64)
    ensures
        lanes8_upto(r, 8, cmgt8_lanes(a, b)),
        forall|i: u64|
            i < 8 ==> #[trigger] lane8(r, i) == if sx8(lane8(a, i)) > sx8(lane8(b, i)) {
                0xffu64
            } else {
                0u64
            },
{
    proof {
        assert forall|i: u64| i < 8 implies #[trigger] cmgt8_lanes(a, b)(i) == if sx8(lane8(a, i))
            > sx8(lane8(b, i)) {
            0xffu64
        } else {
            0u64
        } by {
            law_cmgt8_signed(a, b, i);
        }
    }
    let mut r = 0u64;
    let mut i: u64 = 0;
    proof {
        lemma_lanes8_start(cmgt8_lanes(a, b));
    }
    while i < 8
        invariant
            i <= 8,
            lanes8_upto(r, i, cmgt8_lanes(a, b)),
        decreases 8 - i,
    {
        let va = ((a >> (i * 8)) & 0xff) as u8 as i8;
        let vb = ((b >> (i * 8)) & 0xff) as u8 as i8;
        if va > vb {
            proof {
                lemma_lane8_next(r, 0xff, i, cmgt8_lanes(a, b));
            }
            r |= 0xffu64 << (i * 8);
        } else {
            proof {
                lemma_lane8_skip(r, i, cmgt8_lanes(a, b));
            }
        }
        i += 1;
    }
    r
}

/// Lanes of `cmeq16`: each halfword is all ones where the halfwords of `a` and `b` are equal, else 0.
pub open spec fn cmeq16_lanes(a: u64, b: u64) -> spec_fn(u64) -> u64 {
    |i: u64|
        if lane16(a, i) == lane16(b, i) {
            0xffffu64
        } else {
            0u64
        }
}

/// Each halfword is all ones where the halfwords of `a` and `b` are equal, else 0.
pub fn helper_cmeq16(a: u64, b: u64) -> (r: u64)
    ensures
        lanes16_upto(r, 4, cmeq16_lanes(a, b)),
{
    let mut r = 0u64;
    let mut i: u64 = 0;
    proof {
        lemma_lanes16_start(cmeq16_lanes(a, b));
    }
    while i < 4
        invariant
            i <= 4,
            lanes16_upto(r, i, cmeq16_lanes(a, b)),
        decreases 4 - i,
    {
        let ab = (a >> (i * 16)) & 0xffff;
        let bb = (b >> (i * 16)) & 0xffff;
        if ab == bb {
            proof {
                lemma_lane16_next(r, 0xffff, i, cmeq16_lanes(a, b));
            }
            r |= 0xffffu64 << (i * 16);
        } else {
            proof {
                lemma_lane16_skip(r, i, cmeq16_lanes(a, b));
            }
        }
        i += 1;
    }
    r
}

/// Lanes of `cmtst16`: each halfword is all ones where the halfwords of `a` and `b` share a set bit, else 0.
pub open spec fn cmtst16_lanes(a: u64, b: u64) -> spec_fn(u64) -> u64 {
    |i: u64|
        if lane16(a, i) & lane16(b, i) != 0 {
            0xffffu64
        } else {
            0u64
        }
}

/// Each halfword is all ones where the halfwords of `a` and `b` share a set bit, else 0.
pub fn helper_cmtst16(a: u64, b: u64) -> (r: u64)
    ensures
        lanes16_upto(r, 4, cmtst16_lanes(a, b)),
{
    let mut r = 0u64;
    let mut i: u64 = 0;
    proof {
        lemma_lanes16_start(cmtst16_lanes(a, b));
    }
    while i < 4
        invariant
            i <= 4,
            lanes16_upto(r, i, cmtst16_lanes(a, b)),
        decreases 4 - i,
    {
        let ab = (a >> (i * 16)) & 0xffff;
        let bb = (b >> (i * 16)) & 0xffff;
        if (ab & bb) != 0 {
            proof {
                lemma_lane16_next(r, 0xffff, i, cmtst16_lanes(a, b));
            }
            r |= 0xffffu64 << (i * 16);
        } else {
            proof {
                lemma_lane16_skip(r, i, cmtst16_lanes(a, b));
            }
        }
        i += 1;
    }
    r
}

/// Lanes of `add8`: each byte is the sum of the bytes of `a` and `b`, modulo 2^8.
pub open spec fn add8_lanes(a: u64, b: u64) -> spec_fn(u64) -> u64 {
    |i: u64| ((lane8(a, i) + lane8(b, i)) % 0x100) as u64
}

/// Each byte is the sum of the bytes of `a` and `b`, modulo 2^8.
pub fn helper_add8(a: u64, b: u64) -> (r: u64)
    ensures
        lanes8_upto(r, 8, add8_lanes(a, b)),
{
    let mut r = 0u64;
    let mut i: u64 = 0;
    proof {
        lemma_lanes8_start(add8_lanes(a, b));
    }
    while i < 8
        invariant
            i <= 8,
            lanes8_upto(r, i, add8_lanes(a, b)),
        decreases 8 - i,
    {
        let ab = (a >> (i * 8)) & 0xff;
        let bb = (b >> (i * 8)) & 0xff;
        proof {
            lemma_masks(a >> (i * 8));
            lemma_masks(b >> (i * 8));
        }
        let v = (ab + bb) & 0xff;
        proof {
            lemma_masks((ab + bb) as u64);
            lemma_lane8_next(r, v, i, add8_lanes(a, b));
        }
        r |= v << (i * 8);
        i += 1;
    }
    r
}

/// Lanes of `sub8`: each byte is the byte of `a` minus that of `b`, modulo 2^8.
pub open spec fn sub8_lanes(a: u64, b: u64) -> spec_fn(u64) -> u64 {
    |i: u64| ((lane8(a, i) - lane8(b, i)) % 0x100) as u64
}

/// Each byte is the byte of `a` minus that of `b`, modulo 2^8.
pub fn helper_sub8(a: u64, b: u64) -> (r: u64)
    ensures
        lanes8_upto(r, 8, sub8_lanes(a, b)),
{
    let mut r = 0u64;
    let mut i: u64 = 0;
    proof {
        lemma_lanes8_start(sub8_lanes(a, b));
    }
    while i < 8
        invariant
            i <= 8,
            lanes8_upto(r, i, sub8_lanes(a, b)),
        decreases 8 - i,
    {
        let ab = (a >> (i * 8)) & 0xff;
        let bb = (b >> (i * 8)) & 0xff;
        let v = (ab.wrapping_sub(bb)) & 0xff;
        proof {
            lemma_masks(ab.wrapping_sub(bb));
            lemma_masks(a >> (i * 8));
            lemma_masks(b >> (i * 8));
            lemma_lane8_next(r, v, i, sub8_lanes(a, b));
        }
        r |= v << (i * 8);
        i += 1;
    }
    r
}

/// Lanes of `neg8`: each byte is the negation of the byte of `a`, modulo 2^8.
pub open spec fn neg8_lanes(a: u64) -> spec_fn(u64) -> u64 {
    |i: u64| ((0 - lane8(a, i)) % 0x100) as u64
}

/// Each byte is the negation of the byte of `a`, modulo 2^8.
pub fn helper_neg8(a: u64) -> (r: u64)
    ensures
        lanes8_upto(r, 8, neg8_lanes(a)),
{
    let mut r = 0u64;
    let mut i: u64 = 0;
    proof {
        lemma_lanes8_start(neg8_lanes(a));
    }
    while i < 8
        invariant
            i <= 8,
            lanes8_upto(r, i, neg8_lanes(a)),
        decreases 8 - i,
    {
        let b = ((a >> (i * 8)) & 0xff) as u8;
        let v = 0u8.wrapping_sub(b) as u64;
        proof {
            lemma_masks(a >> (i * 8));
            lemma_lane8_next(r, v, i, neg8_lanes(a));
        }
        r |= v << (i * 8);
        i += 1;
    }
    r
}

/// Lanes of `shl8`: each byte of `a` shifted left by `shift`, keeping 8 bits.
pub open spec fn shl8_lanes(a: u64, shift: u64) -> spec_fn(u64) -> u64 {
    |i: u64| (lane8(a, i) << shift) & 0xff
}

/// Each byte of `a` shifted left by `shift`, keeping 8 bits.
pub fn helper_shl8(a: u64, shift: u64) -> (r: u64)
    requires
        shift < 64,
    ensures
        lanes8_upto(r, 8, shl8_lanes(a, shift)),
{
    let mut r = 0u64;
    let mut i: u64 = 0;
    proof {
        lemma_lanes8_start(shl8_lanes(a, shift));
    }
    while i < 8
        invariant
            i <= 8,
            shift < 64,
            lanes8_upto(r, i, shl8_lanes(a, shift)),
        decreases 8 - i,
    {
        let byte = (a >> (i * 8)) & 0xff;
        let v = (byte << shift) & 0xff;
        proof {
            lemma_masks((byte << shift) as u64);
            lemma_lane8_next(r, v, i, shl8_lanes(a, shift));
        }
        r |= v << (i * 8);
        i += 1;
    }
    r
}

/// Lanes of `ushr8`: each byte of `a` shifted right (logically) by `shift`.
pub open spec fn ushr8_lanes(a: u64, shift: u64) -> spec_fn(u64) -> u64 {
    |i: u64| lane8(a, i) >> shift
}

/// Each byte of `a` shifted right (logically) by `shift`.
pub fn helper_ushr8(a: u64, shift: u64) -> (r: u64)
    requires
        shift < 64,
    ensures
        lanes8_upto(r, 8, ushr8_lanes(a, shift)),
{
    let mut r = 0u64;
    let mut i: u64 = 0;
    proof {
        lemma_lanes8_start(ushr8_lanes(a, shift));
    }
    while i < 8
        invariant
            i <= 8,
            shift < 64,
            lanes8_upto(r, i, ushr8_lanes(a, shift)),
        decreases 8 - i,
    {
        let elem = (a >> (i * 8)) & 0xff;
        let v = elem >> shift;
        proof {
            lemma_masks(a >> (i * 8));
            lemma_shr_le(elem, shift);
            lemma_lane8_next(r, v, i, ushr8_lanes(a, shift));
        }
        r |= v << (i * 8);
        i += 1;
    }
    r
}

/// Lanes of `sshr8`: each byte of `a`, as a signed byte, shifted right arithmetically by `shift`, keeping 8 bits.
pub open spec fn sshr8_lanes(a: u64, shift: u64) -> spec_fn(u64) -> u64 {
    |i: u64| (((lane8(a, i) as i8) as i32 >> shift) as u64) & 0xff
}

/// Each byte of `a`, as a signed byte, shifted right arithmetically by `shift`, keeping 8 bits.
pub fn helper_sshr8(a: u64, shift: u64) -> (r: u64)
    requires
        shift < 32,
    ensures
        lanes8_upto(r, 8, sshr8_lanes(a, shift)),
{
    let mut r = 0u64;
    let mut i: u64 = 0;
    proof {
        lemma_lanes8_start(sshr8_lanes(a, shift));
    }
    while i < 8
        invariant
            i <= 8,
            shift < 32,
            lanes8_upto(r, i, sshr8_lanes(a, shift)),
        decreases 8 - i,
    {
        let elem = ((a >> (i * 8)) & 0xff) as i8;
        let shifted = ((elem as i32) >> shift) as u64;
        let v = shifted & 0xff;
        proof {
            lemma_masks(shifted);
            lemma_lane8_next(r, v, i, sshr8_lanes(a, shift));
        }
        r |= v << (i * 8);
        i += 1;
    }
    r
}

/// Lanes of `shl16`: each halfword of `a` shifted left by `shift`, keeping 16 bits.
pub open spec fn shl16_lanes(a: u64, shift: u64) -> spec_fn(u64) -> u64 {
    |i: u64| (lane16(a, i) << shift) & 0xffff
}

/// Each halfword of `a` shifted left by `shift`, keeping 16 bits.
pub fn helper_shl16(a: u64, shift: u64) -> (r: u64)
    requires
        shift < 64,
    ensures
        lanes16_upto(r, 4, shl16_lanes(a, shift)),
{
    let mut r = 0u64;
    let mut i: u64 = 0;
    proof {
        lemma_lanes16_start(shl16_lanes(a, shift));
    }
    while i < 4
        invariant
            i <= 4,
            shift < 64,
            lanes16_upto(r, i, shl16_lanes(a, shift)),
        decreases 4 - i,
    {
        let elem = (a >> (i * 16)) & 0xffff;
        let v = (elem << shift) & 0xffff;
        proof {
            lemma_masks((elem << shift) as u64);
            lemma_lane16_next(r, v, i, shl16_lanes(a, shift));
        }
        r |= v << (i * 16);
        i += 1;
    }
    r
}

/// Lanes of `ushr16`: each halfword of `a` shifted right (logically) by `shift`.
pub open spec fn ushr16_lanes(a: u64, shift: u64) -> spec_fn(u64) -> u64 {
    |i: u64| lane16(a, i) >> shift
}

/// Each halfword of `a` shifted right (logically) by `shift`.
pub fn helper_ushr16(a: u64, shift: u64) -> (r: u64)
    requires
        shift < 64,
    ensures
        lanes16_upto(r, 4, ushr16_lanes(a, shift)),
{
    let mut r = 0u64;
    let mut i: u64 = 0;
    proof {
        lemma_lanes16_start(ushr16_lanes(a, shift));
    }
    while i < 4
        invariant
            i <= 4,
            shift < 64,
            lanes16_upto(r, i, ushr16_lanes(a, shift)),
        decreases 4 - i,
    {
        let elem = (a >> (i * 16)) & 0xffff;
        let v = elem >> shift;
        proof {
            lemma_masks(a >> (i * 16));
            lemma_shr_le(elem, shift);
            lemma_lane16_next(r, v, i, ushr16_lanes(a, shift));
        }
        r |= v << (i * 16);
        i += 1;
    }
    r
}

/// Lanes of `sshr16`: each halfword of `a`, as a signed halfword, shifted right arithmetically by `shift`, keeping 16 bits.
pub open spec fn sshr16_lanes(a: u64, shift: u64) -> spec_fn(u64) -> u64 {
    |i: u64| (((lane16(a, i) as i16) as i32 >> shift) as u64) & 0xffff
}

/// Each halfword of `a`, as a signed halfword, shifted right arithmetically by `shift`, keeping 16 bits.
pub fn helper_sshr16(a: u64, shift: u64) -> (r: u64)
    requires
        shift < 32,
    ensures
        lanes16_upto(r, 4, sshr16_lanes(a, shift)),
{
    let mut r = 0u64;
    let mut i: u64 = 0;
    proof {
        lemma_lanes16_start(sshr16_lanes(a, shift));
    }
    while i < 4
        invariant
            i <= 4,
            shift < 32,
            lanes16_upto(r, i, sshr16_lanes(a, shift)),
        decreases 4 - i,
    {
        let elem = ((a >> (i * 16)) & 0xffff) as i16;
        let shifted = ((elem as i32) >> shift) as u64;
        let v = shifted & 0xffff;
        proof {
            lemma_masks(shifted);
            lemma_lane16_next(r, v, i, sshr16_lanes(a, shift));
        }
        r |= v << (i * 16);
        i += 1;
    }
    r
}

/// The larger of two values.
pub open spec fn max_u64(x: u64, y: u64) -> u64 {
    if x >= y {
        x
    } else {
        y
    }
}

/// The smaller of two values.
pub open spec fn min_u64(x: u64, y: u64) -> u64 {
    if x <= y {
        x
    } else {
        y
    }
}

/// Lanes of `umaxp8`: bytes 0-3 are the larger byte of each adjacent pair of `a`, bytes 4-7 likewise of `b` (unsigned).
pub open spec fn umaxp8_lanes(a: u64, b: u64) -> spec_fn(u64) -> u64 {
    |i: u64|
        if i < 4 {
            max_u64(lane8(a, (2 * i) as u64), lane8(a, (2 * i + 1) as u64))
        } else {
            max_u64(lane8(b, (2 * (i - 4)) as u64), lane8(b, (2 * (i - 4) + 1) as u64))
        }
}

/// Bytes 0-3 are the larger byte of each adjacent pair of `a`, bytes 4-7 likewise of `b` (unsigned).
pub fn helper_umaxp8(a: u64, b: u64) -> (r: u64)
    ensures
        lanes8_upto(r, 8, umaxp8_lanes(a, b)),
{
    let mut r = 0u64;
    let mut i: u64 = 0;
    proof {
        lemma_lanes8_start(umaxp8_lanes(a, b));
    }
    while i < 4
        invariant
            i <= 4,
            lanes8_upto(r, i, umaxp8_lanes(a, b)),
        decreases 4 - i,
    {
        let a0 = (a >> (i * 16)) & 0xff;
        let a1 = (a >> (i * 16 + 8)) & 0xff;
        proof {
            lemma_masks(a >> (i * 16));
            lemma_masks(a >> (i * 16 + 8));
        }
        let v = a0.max(a1);
        proof {

            lemma_lane8_next(r, v, i, umaxp8_lanes(a, b));
        }
        r |= v << (i * 8);
        i += 1;
    }
    let mut i: u64 = 0;
    while i < 4
        invariant
            i <= 4,
            lanes8_upto(r, (i + 4) as u64, umaxp8_lanes(a, b)),
        decreases 4 - i,
    {
        let b0 = (b >> (i * 16)) & 0xff;
        let b1 = (b >> (i * 16 + 8)) & 0xff;
        proof {
            lemma_masks(b >> (i * 16));
            lemma_masks(b >> (i * 16 + 8));
        }
        let v = b0.max(b1);
        proof {

            lemma_lane8_next(r, v, (i + 4) as u64, umaxp8_lanes(a, b));
        }
        r |= v << ((4 + i) * 8);
        i += 1;
    }
    r
}

/// Lanes of `uminp8`: bytes 0-3 are the smaller byte of each adjacent pair of `a`, bytes 4-7 likewise of `b` (unsigned).
pub open spec fn uminp8_lanes(a: u64, b: u64) -> spec_fn(u64) -> u64 {
    |i: u64|
        if i < 4 {
            min_u64(lane8(a, (2 * i) as u64), lane8(a, (2 * i + 1) as u64))
        } else {
            min_u64(lane8(b, (2 * (i - 4)) as u64), lane8(b, (2 * (i - 4) + 1) as u64))
        }
}

/// Bytes 0-3 are the smaller byte of each adjacent pair of `a`, bytes 4-7 likewise of `b` (unsigned).
pub fn helper_uminp8(a: u64, b: u64) -> (r: u64)
    ensures
        lanes8_upto(r, 8, uminp8_lanes(a, b)),
{
    let mut r = 0u64;
    let mut i: u64 = 0;
    proof {
        lemma_lanes8_start(uminp8_lanes(a, b));
    }
    while i < 4
        invariant
            i <= 4,
            lanes8_upto(r, i, uminp8_lanes(a, b)),
        decreases 4 - i,
    {
        let a0 = (a >> (i * 16)) & 0xff;
        let a1 = (a >> (i * 16 + 8)) & 0xff;
        proof {
            lemma_masks(a >> (i * 16));
            lemma_masks(a >> (i * 16 + 8));
        }
        let v = a0.min(a1);
        proof {

            lemma_lane8_next(r, v, i, uminp8_lanes(a, b));
        }
        r |= v << (i * 8);
        i += 1;
    }
    let mut i: u64 = 0;
    while i < 4
        invariant
            i <= 4,
            lanes8_upto(r, (i + 4) as u64, uminp8_lanes(a, b)),
        decreases 4 - i,
    {
        let b0 = (b >> (i * 16)) & 0xff;
        let b1 = (b >> (i * 16 + 8)) & 0xff;
        proof {
            lemma_masks(b >> (i * 16));
            lemma_masks(b >> (i * 16 + 8));
        }
        let v = b0.min(b1);
        proof {

            lemma_lane8_next(r, v, (i + 4) as u64, uminp8_lanes(a, b));
        }
        r |= v << ((4 + i) * 8);
        i += 1;
    }
    r
}

/// Lanes of `addp8`: bytes 0-3 are the sums of adjacent byte pairs of `a`, bytes 4-7 likewise of `b`, modulo 2^8.
pub open spec fn addp8_lanes(a: u64, b: u64) -> spec_fn(u64) -> u64 {
    |i: u64|
        if i < 4 {
            ((lane8(a, (2 * i) as u64) + lane8(a, (2 * i + 1) as u64)) % 0x100) as u64
        } else {
            ((lane8(b, (2 * (i - 4)) as u64) + lane8(b, (2 * (i - 4) + 1) as u64)) % 0x100) as u64
        }
}

/// Bytes 0-3 are the sums of adjacent byte pairs of `a`, bytes 4-7 likewise of `b`, modulo 2^8.
pub fn helper_addp8(a: u64, b: u64) -> (r: u64)
    ensures
        lanes8_upto(r, 8, addp8_lanes(a, b)),
{
    let mut r = 0u64;
    let mut i: u64 = 0;
    proof {
        lemma_lanes8_start(addp8_lanes(a, b));
    }
    while i < 4
        invariant
            i <= 4,
            lanes8_upto(r, i, addp8_lanes(a, b)),
        decreases 4 - i,
    {
        let a0 = (a >> (i * 16)) & 0xff;
        let a1 = (a >> (i * 16 + 8)) & 0xff;
        proof {
            lemma_masks(a >> (i * 16));
            lemma_masks(a >> (i * 16 + 8));
        }
        let v = (a0 + a1) & 0xff;
        proof {
            lemma_masks((a0 + a1) as u64);
            lemma_lane8_next(r, v, i, addp8_lanes(a, b));
        }
        r |= v << (i * 8);
        i += 1;
    }
    let mut i: u64 = 0;
    while i < 4
        invariant
            i <= 4,
            lanes8_upto(r, (i + 4) as u64, addp8_lanes(a, b)),
        decreases 4 - i,
    {
        let b0 = (b >> (i * 16)) & 0xff;
        let b1 = (b >> (i * 16 + 8)) & 0xff;
        proof {
            lemma_masks(b >> (i * 16));
            lemma_masks(b >> (i * 16 + 8));
        }
        let v = (b0 + b1) & 0xff;
        proof {
            lemma_masks((b0 + b1) as u64);
            lemma_lane8_next(r, v, (i + 4) as u64, addp8_lanes(a, b));
        }
        r |= v << ((4 + i) * 8);
        i += 1;
    }
    r
}

/// Lanes of `uzp1_8`: bytes 0-3 are the even-numbered bytes of `a`, bytes 4-7 those of `b`.
pub open spec fn uzp1_8_lanes(a: u64, b: u64) -> spec_fn(u64) -> u64 {
    |i: u64|
        if i < 4 {
            lane8(a, (2 * i) as u64)
        } else {
            lane8(b, (2 * (i - 4)) as u64)
        }
}

/// Bytes 0-3 are the even-numbered bytes of `a`, bytes 4-7 those of `b`.
pub fn helper_uzp1_8(a: u64, b: u64) -> (r: u64)
    ensures
        lanes8_upto(r, 8, uzp1_8_lanes(a, b)),
{
    let mut r = 0u64;
    let mut i: u64 = 0;
    proof {
        lemma_lanes8_start(uzp1_8_lanes(a, b));
    }
    while i < 4
        invariant
            i <= 4,
            lanes8_upto(r, i, uzp1_8_lanes(a, b)),
        decreases 4 - i,
    {
        let v = (a >> (i * 16)) & 0xff;
        proof {
            lemma_masks(a >> (i * 16));
            lemma_lane8_next(r, v, i, uzp1_8_lanes(a, b));
        }
        r |= v << (i * 8);
        i += 1;
    }
    let mut i: u64 = 0;
    while i < 4
        invariant
            i <= 4,
            lanes8_upto(r, (i + 4) as u64, uzp1_8_lanes(a, b)),
        decreases 4 - i,
    {
        let v = (b >> (i * 16)) & 0xff;
        proof {
            lemma_masks(b >> (i * 16));
            lemma_lane8_next(r, v, (i + 4) as u64, uzp1_8_lanes(a, b));
        }
        r |= v << ((4 + i) * 8);
        i += 1;
    }
    r
}

/// Lanes of `uzp2_8`: bytes 0-3 are the odd-numbered bytes of `a`, bytes 4-7 those of `b`.
pub open spec fn uzp2_8_lanes(a: u64, b: u64) -> spec_fn(u64) -> u64 {
    |i: u64|
        if i < 4 {
            lane8(a, (2 * i + 1) as u64)
        } else {
            lane8(b, (2 * (i - 4) + 1) as u64)
        }
}

/// Bytes 0-3 are the odd-numbered bytes of `a`, bytes 4-7 those of `b`.
pub fn helper_uzp2_8(a: u64, b: u64) -> (r: u64)
    ensures
        lanes8_upto(r, 8, uzp2_8_lanes(a, b)),
{
    let mut r = 0u64;
    let mut i: u64 = 0;
    proof {
        lemma_lanes8_start(uzp2_8_lanes(a, b));
    }
    while i < 4
        invariant
            i <= 4,
            lanes8_upto(r, i, uzp2_8_lanes(a, b)),
        decreases 4 - i,
    {
        let v = (a >> (i * 16 + 8)) & 0xff;
        proof {
            lemma_masks(a >> (i * 16 + 8));
            lemma_lane8_next(r, v, i, uzp2_8_lanes(a, b));
        }
        r |= v << (i * 8);
        i += 1;
    }
    let mut i: u64 = 0;
    while i < 4
        invariant
            i <= 4,
            lanes8_upto(r, (i + 4) as u64, uzp2_8_lanes(a, b)),
        decreases 4 - i,
    {
        let v = (b >> (i * 16 + 8)) & 0xff;
        proof {
            lemma_masks(b >> (i * 16 + 8));
            lemma_lane8_next(r, v, (i + 4) as u64, uzp2_8_lanes(a, b));
        }
        r |= v << ((4 + i) * 8);
        i += 1;
    }
    r
}

/// Lanes of `zip1_8`: the low four bytes of `a` and `b` interleaved, starting with `a`.
pub open spec fn zip1_8_lanes(a: u64, b: u64) -> spec_fn(u64) -> u64 {
    |i: u64|
        if i % 2 == 0 {
            lane8(a, (i / 2 + 0) as u64)
        } else {
            lane8(b, (i / 2 + 0) as u64)
        }
}

/// The low four bytes of `a` and `b` interleaved, starting with `a`.
pub fn helper_zip1_8(a: u64, b: u64) -> (r: u64)
    ensures
        lanes8_upto(r, 8, zip1_8_lanes(a, b)),
{
    let mut r = 0u64;
    let mut i: u64 = 0;
    proof {
        lemma_lanes8_start(zip1_8_lanes(a, b));
    }
    while i < 4
        invariant
            i <= 4,
            lanes8_upto(r, (2 * i) as u64, zip1_8_lanes(a, b)),
        decreases 4 - i,
    {
        let va = (a >> (i * 8 + 0)) & 0xff;
        let vb = (b >> (i * 8 + 0)) & 0xff;
        proof {
            lemma_masks(a >> (i * 8 + 0));
            lemma_masks(b >> (i * 8 + 0));
            lemma_lane8_next(r, va, (2 * i) as u64, zip1_8_lanes(a, b));
        }
        r |= va << (i * 16);
        proof {
            lemma_lane8_next(r, vb, (2 * i + 1) as u64, zip1_8_lanes(a, b));
        }
        r |= vb << (i * 16 + 8);
        i += 1;
    }
    r
}

/// Lanes of `zip2_8`: the high four bytes of `a` and `b` interleaved, starting with `a`.
pub open spec fn zip2_8_lanes(a: u64, b: u64) -> spec_fn(u64) -> u64 {
    |i: u64|
        if i % 2 == 0 {
            lane8(a, (i / 2 + 4) as u64)
        } else {
            lane8(b, (i / 2 + 4) as u64)
        }
}

/// The high four bytes of `a` and `b` interleaved, starting with `a`.
pub fn helper_zip2_8(a: u64, b: u64) -> (r: u64)
    ensures
        lanes8_upto(r, 8, zip2_8_lanes(a, b)),
{
    let mut r = 0u64;
    let mut i: u64 = 0;
    proof {
        lemma_lanes8_start(zip2_8_lanes(a, b));
    }
    while i < 4
        invariant
            i <= 4,
            lanes8_upto(r, (2 * i) as u64, zip2_8_lanes(a, b)),
        decreases 4 - i,
    {
        let va = (a >> (i * 8 + 32)) & 0xff;
        let vb = (b >> (i * 8 + 32)) & 0xff;
        proof {
            lemma_masks(a >> (i * 8 + 32));
            lemma_masks(b >> (i * 8 + 32));
            lemma_lane8_next(r, va, (2 * i) as u64, zip2_8_lanes(a, b));
        }
        r |= va << (i * 16);
        proof {
            lemma_lane8_next(r, vb, (2 * i + 1) as u64, zip2_8_lanes(a, b));
        }
        r |= vb << (i * 16 + 8);
        i += 1;
    }
    r
}

/// Lanes of `shrn8`: bytes 0-3 are the halfwords of `a` shifted right by `shift` and narrowed to 8 bits; bytes 4-7 are 0.
pub open spec fn shrn8_lanes(a: u64, shift: u64) -> spec_fn(u64) -> u64 {
    |i: u64|
        if i < 4 {
            (lane16(a, i) >> shift) & 0xff
        } else {
            0u64
        }
}

/// Bytes 0-3 are the halfwords of `a` shifted right by `shift` and narrowed to 8 bits; bytes 4-7 are 0.
pub fn helper_shrn8(a: u64, shift: u64) -> (r: u64)
    requires
        shift < 64,
    ensures
        lanes8_upto(r, 8, shrn8_lanes(a, shift)),
{
    let mut r = 0u64;
    let mut i: u64 = 0;
    proof {
        lemma_lanes8_start(shrn8_lanes(a, shift));
    }
    while i < 4
        invariant
            i <= 4,
            shift < 64,
            lanes8_upto(r, i, shrn8_lanes(a, shift)),
        decreases 4 - i,
    {
        let elem = (a >> (i * 16)) & 0xffff;
        let v = (elem >> shift) & 0xff;
        proof {
            lemma_masks(elem >> shift);
            lemma_lane8_next(r, v, i, shrn8_lanes(a, shift));
        }
        r |= v << (i * 8);
        i += 1;
    }
    proof {
        assert forall|j: u64| j < 8 implies #[trigger] lane8(r, j) == shrn8_lanes(a, shift)(j) by {}
    }
    r
}

/// Lanes of `xtn8`: bytes 0-3 are the low bytes of the halfwords of `a`; bytes 4-7 are 0.
pub open spec fn xtn8_lanes(a: u64) -> spec_fn(u64) -> u64 {
    |i: u64|
        if i < 4 {
            lane8(a, (2 * i) as u64)
        } else {
            0u64
        }
}

/// Bytes 0-3 are the low bytes of the halfwords of `a`; bytes 4-7 are 0.
pub fn helper_xtn8(a: u64) -> (r: u64)
    ensures
        lanes8_upto(r, 8, xtn8_lanes(a)),
{
    let mut r = 0u64;
    let mut i: u64 = 0;
    proof {
        lemma_lanes8_start(xtn8_lanes(a));
    }
    while i < 4
        invariant
            i <= 4,
            lanes8_upto(r, i, xtn8_lanes(a)),
        decreases 4 - i,
    {
        let v = (a >> (i * 16)) & 0xff;
        proof {
            lemma_masks(a >> (i * 16));
            lemma_lane8_next(r, v, i, xtn8_lanes(a));
        }
        r |= v << (i * 8);
        i += 1;
    }
    proof {
        assert forall|j: u64| j < 8 implies #[trigger] lane8(r, j) == xtn8_lanes(a)(j) by {}
    }
    r
}

/// Lanes of `ext8`: byte `i` is byte `pos + i` of the 16-byte
/// concatenation of `a` (low) and `b` (high).
pub open spec fn ext8_lanes(a: u64, b: u64, pos: u64) -> spec_fn(u64) -> u64 {
    |i: u64|
        if pos + i < 8 {
            lane8(a, (pos + i) as u64)
        } else {
            lane8(b, (pos + i - 8) as u64)
        }
}

/// Extracts eight consecutive bytes, starting at byte `pos`, from the
/// concatenation of `a` (low) and `b` (high).
pub fn helper_ext8(a: u64, b: u64, pos: u64) -> (r: u64)
    requires
        pos <= 8,
    ensures
        lanes8_upto(r, 8, ext8_lanes(a, b, pos)),
{
    let mut r = 0u64;
    let mut i: u64 = 0;
    proof {
        lemma_lanes8_start(ext8_lanes(a, b, pos));
    }
    while i < 8
        invariant
            i <= 8,
            pos <= 8,
            lanes8_upto(r, i, ext8_lanes(a, b, pos)),
        decreases 8 - i,
    {
        let idx = pos + i;
        let byte = if idx < 8 {
            proof {
                lemma_masks(a >> (idx * 8));
            }
            (a >> (idx * 8)) & 0xff
        } else {
            proof {
                lemma_masks(b >> ((idx - 8) * 8));
            }
            (b >> ((idx - 8) * 8)) & 0xff
        };
        proof {
            lemma_lane8_next(r, byte, i, ext8_lanes(a, b, pos));
        }
        r |= byte << (i * 8);
        i += 1;
    }
    r
}

/// Byte `k` of the 16-byte table `lo` (bytes 0-7), `hi` (bytes 8-15);
/// 0 when `k` is out of range.
pub open spec fn tbl1_byte(lo: u64, hi: u64, k: u64) -> u64 {
    if k < 8 {
        lane8(lo, k)
    } else if k < 16 {
        lane8(hi, (k - 8) as u64)
    } else {
        0
    }
}

/// Lanes of `tbl1`: byte `i` looks up byte `i` of `idx` in the table.
pub open spec fn tbl1_lanes(t_lo: u64, t_hi: u64, idx: u64) -> spec_fn(u64) -> u64 {
    |i: u64| tbl1_byte(t_lo, t_hi, lane8(idx, i))
}

/// One-register table lookup: each byte of `idx` selects a byte of the
/// 16-byte table `t_lo`, `t_hi`, or 0 when it is out of range.
pub fn helper_tbl1(t_lo: u64, t_hi: u64, idx: u64) -> (r: u64)
    ensures
        lanes8_upto(r, 8, tbl1_lanes(t_lo, t_hi, idx)),
{
    let mut r = 0u64;
    let mut i: u64 = 0;
    proof {
        lemma_lanes8_start(tbl1_lanes(t_lo, t_hi, idx));
    }
    while i < 8
        invariant
            i <= 8,
            lanes8_upto(r, i, tbl1_lanes(t_lo, t_hi, idx)),
        decreases 8 - i,
    {
        let index = (idx >> (i * 8)) & 0xff;
        proof {
            lemma_masks(idx >> (i * 8));
        }
        let byte = if index < 8 {
            proof {
                lemma_words(0, 0, t_lo >> (index * 8));
            }
            (t_lo >> (index * 8)) as u8
        } else if index < 16 {
            proof {
                lemma_words(0, 0, t_hi >> ((index - 8) * 8));
            }
            (t_hi >> ((index - 8) * 8)) as u8
        } else {
            0
        };
        proof {
            lemma_lane8_next(r, byte as u64, i, tbl1_lanes(t_lo, t_hi, idx));
        }
        r |= (byte as u64) << (i * 8);
        i += 1;
    }
    r
}

/// Byte `k` of the 32-byte table made of four 8-byte parts; 0 when `k` is
/// out of range.
pub open spec fn tbl2_byte(t: Seq<u64>, k: u64) -> u64 {
    if k < 32 {
        lane8(t[(k / 8) as int], k % 8)
    } else {
        0
    }
}

/// Lanes of `tbl2`: byte `i` looks up byte `i` of `idx` in the table.
pub open spec fn tbl2_lanes(t: Seq<u64>, idx: u64) -> spec_fn(u64) -> u64 {
    |i: u64| tbl2_byte(t, lane8(idx, i))
}

/// Two-register table lookup: the table is the 32 bytes of `t0_lo`,
/// `t0_hi`, `t1_lo`, `t1_hi` in that order; each byte of `idx` selects one
/// of them, or 0 when it is out of range.
pub fn helper_tbl2(t0_lo: u64, t0_hi: u64, t1_lo: u64, t1_hi: u64, idx: u64) -> (r: u64)
    ensures
        lanes8_upto(r, 8, tbl2_lanes(seq![t0_lo, t0_hi, t1_lo, t1_hi], idx)),
{
    let ghost parts = seq![t0_lo, t0_hi, t1_lo, t1_hi];
    let vals: [u64; 4] = [t0_lo, t0_hi, t1_lo, t1_hi];
    let mut table: Vec<u8> = Vec::new();
    let mut p: usize = 0;
    while p < 4
        invariant
            p <= 4,
            vals@ == parts,
            table@.len() == p * 8,
            forall|k: int| 0 <= k < p * 8 ==> #[trigger] table@[k] as u64 == lane8(
                parts[k / 8],
                (k % 8) as u64,
            ),
        decreases 4 - p,
    {
        let v = vals[p];
        let mut j: u64 = 0;
        while j < 8
            invariant
                p < 4,
                j <= 8,
                v == parts[p as int],
                table@.len() == p * 8 + j,
                forall|k: int| 0 <= k < p * 8 + j ==> #[trigger] table@[k] as u64 == lane8(
                    parts[k / 8],
                    (k % 8) as u64,
                ),
            decreases 8 - j,
        {
            proof {
                lemma_words(0, 0, v >> (j * 8));
            }
            table.push((v >> (j * 8)) as u8);
            j += 1;
        }
        p += 1;
    }
    let mut r = 0u64;
    let mut i: u64 = 0;
    proof {
        lemma_lanes8_start(tbl2_lanes(parts, idx));
    }
    while i < 8
        invariant
            i <= 8,
            table@.len() == 32,
            forall|k: int| 0 <= k < 32 ==> #[trigger] table@[k] as u64 == lane8(
                parts[k / 8],
                (k % 8) as u64,
            ),
            lanes8_upto(r, i, tbl2_lanes(parts, idx)),
        decreases 8 - i,
    {
        let index = (idx >> (i * 8)) & 0xff;
        proof {
            lemma_masks(idx >> (i * 8));
        }
        let byte = if index < 32 {
            table[index as usize]
        } else {
            0
        };
        proof {
            if index < 32 {
                assert(table@[index as int] as u64 == lane8(parts[(index / 8) as int], index % 8));
            }
            lemma_lane8_next(r, byte as u64, i, tbl2_lanes(parts, idx));
        }
        r |= (byte as u64) << (i * 8);
        i += 1;
    }
    r
}

/// Lanes of `cnt8`: each byte is the number of set bits of that byte of `a`.
pub open spec fn cnt8_lanes(a: u64) -> spec_fn(u64) -> u64 {
    |i: u64| ones(lane8(a, i), 8) as u64
}

/// Number of set bits of a byte.
fn count_ones8(byte: u64) -> (c: u64)
    ensures
        c == ones(byte, 8),
{
    let mut c: u64 = 0;
    let mut k: u64 = 0;
    while k < 8
        invariant
            k <= 8,
            c == ones(byte, k as nat),
            c <= k,
        decreases 8 - k,
    {
        if (byte >> k) & 1 == 1 {
            c += 1;
        }
        k += 1;
    }
    c
}

/// Byte-wise population count.
pub fn helper_cnt8(a: u64) -> (r: u64)
    ensures
        lanes8_upto(r, 8, cnt8_lanes(a)),
{
    let mut r = 0u64;
    let mut i: u64 = 0;
    proof {
        lemma_lanes8_start(cnt8_lanes(a));
    }
    while i < 8
        invariant
            i <= 8,
            lanes8_upto(r, i, cnt8_lanes(a)),
        decreases 8 - i,
    {
        let byte = (a >> (i * 8)) & 0xff;
        let v = count_ones8(byte);
        proof {
            lemma_ones_le(byte, 8);
            lemma_lane8_next(r, v, i, cnt8_lanes(a));
        }
        r |= v << (i * 8);
        i += 1;
    }
    r
}

/// Sum of the first `n` byte lanes of `a`.
pub open spec fn lane8_sum(a: u64, n: nat) -> nat
    decreases n,
{
    if n == 0 {
        0
    } else {
        lane8_sum(a, (n - 1) as nat) + lane8(a, (n - 1) as u64) as nat
    }
}

/// ADDV on bytes: the sum of all eight bytes of `a`, modulo 2^8.
pub fn helper_addv8(a: u64) -> (r: u64)
    ensures
        r == lane8_sum(a, 8) % 0x100,
{
    let mut sum = 0u64;
    let mut i: u64 = 0;
    while i < 8
        invariant
            i <= 8,
            sum == lane8_sum(a, i as nat),
            sum <= i * 0xff,
        decreases 8 - i,
    {
        proof {
            lemma_masks(a >> (i * 8));
        }
        sum += (a >> (i * 8)) & 0xff;
        i += 1;
    }
    proof {
        lemma_masks(sum);
    }
    sum & 0xff
}

/// Lanes of `cmeq16_zero`: each halfword is all ones where the halfword
/// of `a` is 0, else 0.
pub open spec fn cmeq16_zero_lanes(a: u64) -> spec_fn(u64) -> u64 {
    |i: u64|
        if lane16(a, i) == 0 {
            0xffffu64
        } else {
            0u64
        }
}

/// Each halfword is all ones where the halfword of `a` is 0, else 0.
pub fn helper_cmeq16_zero(a: u64) -> (r: u64)
    ensures
        lanes16_upto(r, 4, cmeq16_zero_lanes(a)),
{
    let r = helper_cmeq16(a, 0);
    proof {
        assert forall|j: u64| j < 4 implies #[trigger] lane16(r, j) == cmeq16_zero_lanes(a)(j) by {
            lemma_put_lane16(0, 0, 0, j);
            assert(lane16(r, j) == cmeq16_lanes(a, 0)(j));
        }
    }
    r
}

/// Lanes of `uzp1_16`: the even-numbered halfwords of `a`, then of `b`.
pub open spec fn uzp1_16_lanes(a: u64, b: u64) -> spec_fn(u64) -> u64 {
    |i: u64|
        if i < 2 {
            lane16(a, (2 * i) as u64)
        } else {
            lane16(b, (2 * (i - 2)) as u64)
        }
}

/// UZP1 on halfwords: the even-numbered halfwords of `a`, then of `b`.
pub fn helper_uzp1_16(a: u64, b: u64) -> (r: u64)
    ensures
        lanes16_upto(r, 4, uzp1_16_lanes(a, b)),
{
    let a0 = a & 0xffff;
    let a2 = (a >> 32) & 0xffff;
    let b0 = b & 0xffff;
    let b2 = (b >> 32) & 0xffff;
    proof {
        lemma_words(0, 0, a);
        lemma_words(0, 0, b);
        lemma_masks(a);
        lemma_masks(b);
        lemma_masks(a >> 32);
        lemma_masks(b >> 32);
        lemma_join16(a0, a2, b0, b2);
    }
    a0 | (a2 << 16) | (b0 << 32) | (b2 << 48)
}

/// Lanes of `uzp2_16`: the odd-numbered halfwords of `a`, then of `b`.
pub open spec fn uzp2_16_lanes(a: u64, b: u64) -> spec_fn(u64) -> u64 {
    |i: u64|
        if i < 2 {
            lane16(a, (2 * i + 1) as u64)
        } else {
            lane16(b, (2 * (i - 2) + 1) as u64)
        }
}

/// UZP2 on halfwords: the odd-numbered halfwords of `a`, then of `b`.
pub fn helper_uzp2_16(a: u64, b: u64) -> (r: u64)
    ensures
        lanes16_upto(r, 4, uzp2_16_lanes(a, b)),
{
    let a1 = (a >> 16) & 0xffff;
    let a3 = (a >> 48) & 0xffff;
    let b1 = (b >> 16) & 0xffff;
    let b3 = (b >> 48) & 0xffff;
    proof {
        lemma_masks(a >> 16);
        lemma_masks(b >> 16);
        lemma_masks(a >> 48);
        lemma_masks(b >> 48);
        lemma_join16(a1, a3, b1, b3);
    }
    a1 | (a3 << 16) | (b1 << 32) | (b3 << 48)
}

/// Lanes of `zip1_16`: the low two halfwords of `a` and `b`, interleaved.
pub open spec fn zip1_16_lanes(a: u64, b: u64) -> spec_fn(u64) -> u64 {
    |i: u64|
        if i % 2 == 0 {
            lane16(a, i / 2)
        } else {
            lane16(b, i / 2)
        }
}

/// ZIP1 on halfwords: the low two halfwords of `a` and `b`, interleaved.
pub fn helper_zip1_16(a: u64, b: u64) -> (r: u64)
    ensures
        lanes16_upto(r, 4, zip1_16_lanes(a, b)),
{
    let a0 = a & 0xffff;
    let a1 = (a >> 16) & 0xffff;
    let b0 = b & 0xffff;
    let b1 = (b >> 16) & 0xffff;
    proof {
        lemma_words(0, 0, a);
        lemma_words(0, 0, b);
        lemma_masks(a);
        lemma_masks(b);
        lemma_masks(a >> 16);
        lemma_masks(b >> 16);
        lemma_join16(a0, b0, a1, b1);
    }
    a0 | (b0 << 16) | (a1 << 32) | (b1 << 48)
}

/// Lanes of `zip2_16`: the high two halfwords of `a` and `b`, interleaved.
pub open spec fn zip2_16_lanes(a: u64, b: u64) -> spec_fn(u64) -> u64 {
    |i: u64|
        if i % 2 == 0 {
            lane16(a, (i / 2 + 2) as u64)
        } else {
            lane16(b, (i / 2 + 2) as u64)
        }
}

/// ZIP2 on halfwords: the high two halfwords of `a` and `b`, interleaved.
pub fn helper_zip2_16(a: u64, b: u64) -> (r: u64)
    ensures
        lanes16_upto(r, 4, zip2_16_lanes(a, b)),
{
    let a2 = (a >> 32) & 0xffff;
    let a3 = (a >> 48) & 0xffff;
    let b2 = (b >> 32) & 0xffff;
    let b3 = (b >> 48) & 0xffff;
    proof {
        lemma_masks(a >> 32);
        lemma_masks(b >> 32);
        lemma_masks(a >> 48);
        lemma_masks(b >> 48);
        lemma_join16(a2, b2, a3, b3);
    }
    a2 | (b2 << 16) | (a3 << 32) | (b3 << 48)
}

/// Lanes of a halfword reversal: halfword `i` is halfword `3 - i` of `a`.
pub open spec fn rev64_16_lanes(a: u64) -> spec_fn(u64) -> u64 {
    |i: u64| lane16(a, (3 - i) as u64)
}

/// REV64 on halfwords: reverses the four halfwords of `a`.
pub fn helper_rev64_16(a: u64) -> (r: u64)
    ensures
        lanes16_upto(r, 4, rev64_16_lanes(a)),
{
    let h0 = a & 0xffff;
    let h1 = (a >> 16) & 0xffff;
    let h2 = (a >> 32) & 0xffff;
    let h3 = (a >> 48) & 0xffff;
    proof {
        lemma_words(0, 0, a);
        lemma_masks(a);
        lemma_masks(a >> 16);
        lemma_masks(a >> 32);
        lemma_masks(a >> 48);
        lemma_join16(h3, h2, h1, h0);
    }
    (h3) | (h2 << 16) | (h1 << 32) | (h0 << 48)
}

/// REV64 .4H: reverses the four halfwords of `a`.
pub fn helper_rev64_4h(a: u64) -> (r: u64)
    ensures
        lanes16_upto(r, 4, rev64_16_lanes(a)),
{
    let h0 = (a) as u16 as u64;
    let h1 = (a >> 16) as u16 as u64;
    let h2 = (a >> 32) as u16 as u64;
    let h3 = (a >> 48) as u16 as u64;
    proof {
        lemma_words(0, 0, a);
        lemma_words(0, 0, a >> 16);
        lemma_words(0, 0, a >> 32);
        lemma_words(0, 0, a >> 48);
        lemma_masks(a);
        lemma_masks(a >> 16);
        lemma_masks(a >> 32);
        lemma_masks(a >> 48);
        lemma_join16(h3, h2, h1, h0);
    }
    h3 | (h2 << 16) | (h1 << 32) | (h0 << 48)
}

/// Lanes of `neg16`: each halfword is the negation of that of `a`, modulo
/// 2^16.
pub open spec fn neg16_lanes(a: u64) -> spec_fn(u64) -> u64 {
    |i: u64| ((0 - lane16(a, i)) % 0x1_0000) as u64
}

/// Halfword-wise negation.
pub fn helper_neg16(a: u64) -> (r: u64)
    ensures
        lanes16_upto(r, 4, neg16_lanes(a)),
{
    let lo = 0u16.wrapping_sub(a as u16) as u64;
    let hi = 0u16.wrapping_sub((a >> 16) as u16) as u64;
    let hi2 = 0u16.wrapping_sub((a >> 32) as u16) as u64;
    let hi3 = 0u16.wrapping_sub((a >> 48) as u16) as u64;
    proof {
        lemma_words(0, 0, a);
        lemma_words(0, 0, a >> 16);
        lemma_words(0, 0, a >> 32);
        lemma_words(0, 0, a >> 48);
        lemma_masks(a);
        lemma_masks(a >> 16);
        lemma_masks(a >> 32);
        lemma_masks(a >> 48);
        lemma_join16(lo, hi, hi2, hi3);
    }
    lo | (hi << 16) | (hi2 << 32) | (hi3 << 48)
}

/// Lanes of `xtn16`: the low halfwords of the two words of `a`, then 0.
pub open spec fn xtn16_lanes(a: u64) -> spec_fn(u64) -> u64 {
    |i: u64|
        if i < 2 {
            lane16(a, (2 * i) as u64)
        } else {
            0u64
        }
}

/// XTN from words to halfwords: narrows the two words of `a` into the low
/// 32 bits.
pub fn helper_xtn16(a: u64) -> (r: u64)
    ensures
        lanes16_upto(r, 4, xtn16_lanes(a)),
{
    let e0 = (a as u32 & 0xffff) as u64;
    let e1 = (((a >> 32) as u32) & 0xffff) as u64;
    proof {
        lemma_words(0, 0, a);
        lemma_words(0, 0, a >> 32);
        lemma_masks(a);
        lemma_masks(a >> 32);
        lemma_join16(e0, e1, 0, 0);
    }
    e0 | (e1 << 16)
}

/// Word of `add32`: the sum modulo 2^32.
pub open spec fn add32_word(x: u32, y: u32) -> u32 {
    ((x + y) % 0x1_0000_0000) as u32
}

/// Word-wise addition modulo 2^32.
pub fn helper_add32(a: u64, b: u64) -> (r: u64)
    ensures
        lo32(r) == add32_word(lo32(a), lo32(b)),
        hi32(r) == add32_word(hi32(a), hi32(b)),
{
    let lo = (a as u32).wrapping_add(b as u32) as u64;
    let hi = ((a >> 32) as u32).wrapping_add((b >> 32) as u32) as u64;
    proof {
        lemma_words(0, 0, a);
        lemma_words(0, 0, b);
        lemma_words(lo as u32, hi as u32, 0);
    }
    lo | (hi << 32)
}

/// Word of `sub32`: the difference modulo 2^32.
pub open spec fn sub32_word(x: u32, y: u32) -> u32 {
    ((x - y) % 0x1_0000_0000) as u32
}

/// Word-wise subtraction modulo 2^32.
pub fn helper_sub32(a: u64, b: u64) -> (r: u64)
    ensures
        lo32(r) == sub32_word(lo32(a), lo32(b)),
        hi32(r) == sub32_word(hi32(a), hi32(b)),
{
    let lo = (a as u32).wrapping_sub(b as u32) as u64;
    let hi = ((a >> 32) as u32).wrapping_sub((b >> 32) as u32) as u64;
    proof {
        lemma_words(0, 0, a);
        lemma_words(0, 0, b);
        lemma_words(lo as u32, hi as u32, 0);
    }
    lo | (hi << 32)
}

/// Word of `mul32`: the product modulo 2^32.
pub open spec fn mul32_word(x: u32, y: u32) -> u32 {
    ((x * y) % 0x1_0000_0000) as u32
}

/// Word-wise multiplication modulo 2^32.
pub fn helper_mul32(a: u64, b: u64) -> (r: u64)
    ensures
        lo32(r) == mul32_word(lo32(a), lo32(b)),
        hi32(r) == mul32_word(hi32(a), hi32(b)),
{
    let lo = (a as u32).wrapping_mul(b as u32) as u64;
    let hi = ((a >> 32) as u32).wrapping_mul((b >> 32) as u32) as u64;
    proof {
        lemma_words(0, 0, a);
        lemma_words(0, 0, b);
        lemma_words(lo as u32, hi as u32, 0);
    }
    lo | (hi << 32)
}

/// Word of `umax32`: the larger word.
pub open spec fn umax32_word(x: u32, y: u32) -> u32 {
    if x >= y {
        x
    } else {
        y
    }
}

/// Word-wise unsigned maximum.
pub fn helper_umax32(a: u64, b: u64) -> (r: u64)
    ensures
        lo32(r) == umax32_word(lo32(a), lo32(b)),
        hi32(r) == umax32_word(hi32(a), hi32(b)),
{
    let lo = (a as u32).max(b as u32) as u64;
    let hi = ((a >> 32) as u32).max((b >> 32) as u32) as u64;
    proof {
        lemma_words(0, 0, a);
        lemma_words(0, 0, b);
        lemma_words(lo as u32, hi as u32, 0);
    }
    lo | (hi << 32)
}

/// Word of `umin32`: the smaller word.
pub open spec fn umin32_word(x: u32, y: u32) -> u32 {
    if x <= y {
        x
    } else {
        y
    }
}

/// Word-wise unsigned minimum.
pub fn helper_umin32(a: u64, b: u64) -> (r: u64)
    ensures
        lo32(r) == umin32_word(lo32(a), lo32(b)),
        hi32(r) == umin32_word(hi32(a), hi32(b)),
{
    let lo = (a as u32).min(b as u32) as u64;
    let hi = ((a >> 32) as u32).min((b >> 32) as u32) as u64;
    proof {
        lemma_words(0, 0, a);
        lemma_words(0, 0, b);
        lemma_words(lo as u32, hi as u32, 0);
    }
    lo | (hi << 32)
}

/// The signed reading of the words of `a` and `b`.
proof fn lemma_word_sign_views(a: u64, b: u64)
    ensures
        (lo32(a) as i32) as int == sx32(lo32(a)),
        (hi32(a) as i32) as int == sx32(hi32(a)),
        (lo32(b) as i32) as int == sx32(lo32(b)),
        (hi32(b) as i32) as int == sx32(hi32(b)),
{
    lemma_sign_view(lo32(a), 0, 0, 0, 0);
    lemma_sign_view(hi32(a), 0, 0, 0, 0);
    lemma_sign_view(lo32(b), 0, 0, 0, 0);
    lemma_sign_view(hi32(b), 0, 0, 0, 0);
}

/// The signed word operations compare words as two's-complement numbers
/// (a word of 0x8000_0000 or more is that value minus 2^32): CMGT and CMGE
/// give all ones exactly when the first is greater (or at least as great),
/// SMAX and SMIN pick the larger and smaller of the two numbers, and CMLT
/// #0 gives all ones exactly on negative words. So 0xffff_ffff (-1) is
/// never greater than 1.
pub proof fn law_signed_words(x: u32, y: u32)
    ensures
        cmgt32_word(x, y) == if sx32(x) > sx32(y) {
            0xffff_ffffu32
        } else {
            0u32
        },
        cmge32_word(x, y) == if sx32(x) >= sx32(y) {
            0xffff_ffffu32
        } else {
            0u32
        },
        sx32(smax32_word(x, y)) == if sx32(x) >= sx32(y) {
            sx32(x)
        } else {
            sx32(y)
        },
        sx32(smin32_word(x, y)) == if sx32(x) <= sx32(y) {
            sx32(x)
        } else {
            sx32(y)
        },
        cmlt32_zero_word(x) == if sx32(x) < 0 {
            0xffff_ffffu32
        } else {
            0u32
        },
{
    lemma_sign_view(x, 0, 0, 0, 0);
    lemma_sign_view(y, 0, 0, 0, 0);
}

/// Word of `smax32`: the larger word as signed words.
pub open spec fn smax32_word(x: u32, y: u32) -> u32 {
    if x as i32 >= y as i32 {
        x
    } else {
        y
    }
}

/// Word-wise signed maximum.
pub fn helper_smax32(a: u64, b: u64) -> (r: u64)
    ensures
        lo32(r) == smax32_word(lo32(a), lo32(b)),
        hi32(r) == smax32_word(hi32(a), hi32(b)),
        sx32(lo32(r)) == if sx32(lo32(a)) >= sx32(lo32(b)) { sx32(lo32(a)) } else { sx32(lo32(b)) },
        sx32(hi32(r)) == if sx32(hi32(a)) >= sx32(hi32(b)) { sx32(hi32(a)) } else { sx32(hi32(b)) },
{
    proof {
        lemma_word_sign_views(a, b);
    }
    let lo = (a as i32).max(b as i32) as u32 as u64;
    let hi = ((a >> 32) as i32).max((b >> 32) as i32) as u32 as u64;
    proof {
        lemma_words(0, 0, a);
        lemma_words(0, 0, b);
        lemma_words(lo as u32, hi as u32, 0);
    }
    lo | (hi << 32)
}

/// Word of `smin32`: the smaller word as signed words.
pub open spec fn smin32_word(x: u32, y: u32) -> u32 {
    if x as i32 <= y as i32 {
        x
    } else {
        y
    }
}

/// Word-wise signed minimum.
pub fn helper_smin32(a: u64, b: u64) -> (r: u64)
    ensures
        lo32(r) == smin32_word(lo32(a), lo32(b)),
        hi32(r) == smin32_word(hi32(a), hi32(b)),
        sx32(lo32(r)) == if sx32(lo32(a)) <= sx32(lo32(b)) { sx32(lo32(a)) } else { sx32(lo32(b)) },
        sx32(hi32(r)) == if sx32(hi32(a)) <= sx32(hi32(b)) { sx32(hi32(a)) } else { sx32(hi32(b)) },
{
    proof {
        lemma_word_sign_views(a, b);
    }
    let lo = (a as i32).min(b as i32) as u32 as u64;
    let hi = ((a >> 32) as i32).min((b >> 32) as i32) as u32 as u64;
    proof {
        lemma_words(0, 0, a);
        lemma_words(0, 0, b);
        lemma_words(lo as u32, hi as u32, 0);
    }
    lo | (hi << 32)
}

/// Word of `cmeq32`: all ones where the words of `a` and `b` are equal, else 0.
pub open spec fn cmeq32_word(x: u32, y: u32) -> u32 {
    if x == y {
        0xffff_ffff
    } else {
        0
    }
}

/// Each word is all ones where the words of `a` and `b` are equal, else 0.
pub fn helper_cmeq32(a: u64, b: u64) -> (r: u64)
    ensures
        lo32(r) == cmeq32_word(lo32(a), lo32(b)),
        hi32(r) == cmeq32_word(hi32(a), hi32(b)),
{
    let lo: u32 = if a as u32 == b as u32 {
        !0
    } else {
        0
    };
    let hi: u32 = if (a >> 32) as u32 == (b >> 32) as u32 {
        !0
    } else {
        0
    };
    proof {
        lemma_words(0, 0, a);
        lemma_words(0, 0, b);
        lemma_words(lo, hi, 0);
    }
    lo as u64 | ((hi as u64) << 32)
}

/// Word of `cmhs32`: all ones where the word of `a` is at least that of `b` (unsigned), else 0.
pub open spec fn cmhs32_word(x: u32, y: u32) -> u32 {
    if x >= y {
        0xffff_ffff
    } else {
        0
    }
}

/// Each word is all ones where the word of `a` is at least that of `b` (unsigned), else 0.
pub fn helper_cmhs32(a: u64, b: u64) -> (r: u64)
    ensures
        lo32(r) == cmhs32_word(lo32(a), lo32(b)),
        hi32(r) == cmhs32_word(hi32(a), hi32(b)),
{
    let lo: u32 = if a as u32 >= b as u32 {
        !0
    } else {
        0
    };
    let hi: u32 = if (a >> 32) as u32 >= (b >> 32) as u32 {
        !0
    } else {
        0
    };
    proof {
        lemma_words(0, 0, a);
        lemma_words(0, 0, b);
        lemma_words(lo, hi, 0);
    }
    lo as u64 | ((hi as u64) << 32)
}

/// Word of `cmgt32`: all ones where the word of `a` is greater than that of `b` as signed words, else 0.
pub open spec fn cmgt32_word(x: u32, y: u32) -> u32 {
    if x as i32 > y as i32 {
        0xffff_ffff
    } else {
        0
    }
}

/// Each word is all ones where the word of `a` is greater than that of `b` as signed words, else 0.
pub fn helper_cmgt32(a: u64, b: u64) -> (r: u64)
    ensures
        lo32(r) == cmgt32_word(lo32(a), lo32(b)),
        hi32(r) == cmgt32_word(hi32(a), hi32(b)),
        lo32(r) == if sx32(lo32(a)) > sx32(lo32(b)) {
            0xffff_ffffu32
        } else {
            0u32
        },
        hi32(r) == if sx32(hi32(a)) > sx32(hi32(b)) {
            0xffff_ffffu32
        } else {
            0u32
        },
{
    proof {
        lemma_word_sign_views(a, b);
    }
    let lo: u32 = if (a as i32) > (b as i32) {
        !0
    } else {
        0
    };
    let hi: u32 = if ((a >> 32) as i32) > ((b >> 32) as i32) {
        !0
    } else {
        0
    };
    proof {
        lemma_words(0, 0, a);
        lemma_words(0, 0, b);
        lemma_words(lo, hi, 0);
    }
    lo as u64 | ((hi as u64) << 32)
}

/// Word of `cmge32`: all ones where the word of `a` is at least that of `b` as signed words, else 0.
pub open spec fn cmge32_word(x: u32, y: u32) -> u32 {
    if x as i32 >= y as i32 {
        0xffff_ffff
    } else {
        0
    }
}

/// Each word is all ones where the word of `a` is at least that of `b` as signed words, else 0.
pub fn helper_cmge32(a: u64, b: u64) -> (r: u64)
    ensures
        lo32(r) == cmge32_word(lo32(a), lo32(b)),
        hi32(r) == cmge32_word(hi32(a), hi32(b)),
        lo32(r) == if sx32(lo32(a)) >= sx32(lo32(b)) {
            0xffff_ffffu32
        } else {
            0u32
        },
        hi32(r) == if sx32(hi32(a)) >= sx32(hi32(b)) {
            0xffff_ffffu32
        } else {
            0u32
        },
{
    proof {
        lemma_word_sign_views(a, b);
    }
    let lo: u32 = if (a as i32) >= (b as i32) {
        !0
    } else {
        0
    };
    let hi: u32 = if ((a >> 32) as i32) >= ((b >> 32) as i32) {
        !0
    } else {
        0
    };
    proof {
        lemma_words(0, 0, a);
        lemma_words(0, 0, b);
        lemma_words(lo, hi, 0);
    }
    lo as u64 | ((hi as u64) << 32)
}

/// Word of `cmtst32`: all ones where the words of `a` and `b` share a set bit, else 0.
pub open spec fn cmtst32_word(x: u32, y: u32) -> u32 {
    if x & y != 0 {
        0xffff_ffff
    } else {
        0
    }
}

/// Each word is all ones where the words of `a` and `b` share a set bit, else 0.
pub fn helper_cmtst32(a: u64, b: u64) -> (r: u64)
    ensures
        lo32(r) == cmtst32_word(lo32(a), lo32(b)),
        hi32(r) == cmtst32_word(hi32(a), hi32(b)),
{
    let lo: u32 = if (a as u32) & (b as u32) != 0 {
        !0
    } else {
        0
    };
    let hi: u32 = if ((a >> 32) as u32) & ((b >> 32) as u32) != 0 {
        !0
    } else {
        0
    };
    proof {
        lemma_words(0, 0, a);
        lemma_words(0, 0, b);
        lemma_words(lo, hi, 0);
    }
    lo as u64 | ((hi as u64) << 32)
}

/// Word of `addp32`: the sum of the two words of a value, modulo 2^32.
pub open spec fn addp32_word(x: u64) -> u32 {
    ((lo32(x) + hi32(x)) % 0x1_0000_0000) as u32
}

/// ADDP on words: the low word is the sum of the words of `a`, the high
/// word that of `b`, each modulo 2^32.
pub fn helper_addp32(a: u64, b: u64) -> (r: u64)
    ensures
        lo32(r) == addp32_word(a),
        hi32(r) == addp32_word(b),
{
    let a0 = (a as u32).wrapping_add((a >> 32) as u32) as u64;
    let b0 = (b as u32).wrapping_add((b >> 32) as u32) as u64;
    proof {
        lemma_words(a0 as u32, b0 as u32, 0);
    }
    a0 | (b0 << 32)
}

/// Word of `abs32`: the absolute value of a signed word, modulo 2^32.
pub open spec fn abs32_word(x: u32) -> u32 {
    if (x as i32) < 0 {
        ((0x1_0000_0000 - x) % 0x1_0000_0000) as u32
    } else {
        x
    }
}

/// Absolute value of one signed word, wrapping for the most negative one.
fn abs_word(x: u32) -> (r: u32)
    ensures
        r == abs32_word(x),
{
    if (x as i32) < 0 {
        0u32.wrapping_sub(x)
    } else {
        x
    }
}

/// Word-wise absolute value of signed words (the most negative word stays
/// as it is).
pub fn helper_abs32(a: u64) -> (r: u64)
    ensures
        lo32(r) == abs32_word(lo32(a)),
        hi32(r) == abs32_word(hi32(a)),
{
    let lo = abs_word(a as u32) as u64;
    let hi = abs_word((a >> 32) as u32) as u64;
    proof {
        lemma_words(lo as u32, hi as u32, 0);
    }
    lo | (hi << 32)
}

/// Word of `neg32`: the negation modulo 2^32.
pub open spec fn neg32_word(x: u32) -> u32 {
    ((0 - x) % 0x1_0000_0000) as u32
}

/// Word-wise negation modulo 2^32.
pub fn helper_neg32(a: u64) -> (r: u64)
    ensures
        lo32(r) == neg32_word(lo32(a)),
        hi32(r) == neg32_word(hi32(a)),
{
    let lo = 0u32.wrapping_sub(a as u32) as u64;
    let hi = 0u32.wrapping_sub((a >> 32) as u32) as u64;
    proof {
        lemma_words(lo as u32, hi as u32, 0);
    }
    lo | (hi << 32)
}

/// Word-wise shift left by `shift`.
pub fn helper_shl32(a: u64, shift: u64) -> (r: u64)
    requires
        shift < 32,
    ensures
        lo32(r) == lo32(a) << shift,
        hi32(r) == hi32(a) << shift,
{
    let lo = ((a as u32) << shift) as u64;
    let hi = (((a >> 32) as u32) << shift) as u64;
    proof {
        lemma_words(lo as u32, hi as u32, 0);
    }
    lo | (hi << 32)
}

/// Word-wise logical shift right by `shift`.
pub fn helper_ushr32(a: u64, shift: u64) -> (r: u64)
    requires
        shift < 32,
    ensures
        lo32(r) == lo32(a) >> shift,
        hi32(r) == hi32(a) >> shift,
{
    let lo = ((a as u32) >> shift) as u64;
    let hi = (((a >> 32) as u32) >> shift) as u64;
    proof {
        lemma_words(lo as u32, hi as u32, 0);
    }
    lo | (hi << 32)
}

/// Word-wise arithmetic shift right by `shift` of signed words.
pub fn helper_sshr32(a: u64, shift: u64) -> (r: u64)
    requires
        shift < 32,
    ensures
        lo32(r) == ((lo32(a) as i32) >> shift) as u32,
        hi32(r) == ((hi32(a) as i32) >> shift) as u32,
{
    let lo = ((a as i32) >> shift) as u32 as u64;
    let hi = (((a >> 32) as i32) >> shift) as u32 as u64;
    proof {
        lemma_words(0, 0, a);
        lemma_words(lo as u32, hi as u32, 0);
    }
    lo | (hi << 32)
}

/// Logical shift right of the whole value; 0 for shifts of 64 or more.
pub fn helper_ushr64(a: u64, shift: u64) -> (r: u64)
    ensures
        r == if shift >= 64 {
            0
        } else {
            a >> shift
        },
{
    if shift >= 64 {
        0
    } else {
        a >> shift
    }
}

/// Each word is all ones where the word of `a` is 0, else 0.
pub fn helper_cmeq32_zero(a: u64) -> (r: u64)
    ensures
        lo32(r) == cmeq32_word(lo32(a), 0),
        hi32(r) == cmeq32_word(hi32(a), 0),
{
    let lo: u32 = if a as u32 == 0 {
        !0
    } else {
        0
    };
    let hi: u32 = if (a >> 32) as u32 == 0 {
        !0
    } else {
        0
    };
    proof {
        lemma_words(0, 0, 0);
        lemma_words(lo, hi, 0);
    }
    lo as u64 | ((hi as u64) << 32)
}

/// Word of `cmlt32_zero`: all ones where the signed word is negative.
pub open spec fn cmlt32_zero_word(x: u32) -> u32 {
    if (x as i32) < 0 {
        0xffff_ffff
    } else {
        0
    }
}

/// Each word is all ones where the word of `a` is negative as a signed
/// word, else 0.
pub fn helper_cmlt32_zero(a: u64) -> (r: u64)
    ensures
        lo32(r) == cmlt32_zero_word(lo32(a)),
        hi32(r) == cmlt32_zero_word(hi32(a)),
        lo32(r) == if sx32(lo32(a)) < 0 {
            0xffff_ffffu32
        } else {
            0u32
        },
        hi32(r) == if sx32(hi32(a)) < 0 {
            0xffff_ffffu32
        } else {
            0u32
        },
{
    proof {
        lemma_word_sign_views(a, a);
    }
    let lo: u32 = if (a as i32) < 0 {
        !0
    } else {
        0
    };
    let hi: u32 = if ((a >> 32) as i32) < 0 {
        !0
    } else {
        0
    };
    proof {
        lemma_words(0, 0, a);
        lemma_words(lo, hi, 0);
    }
    lo as u64 | ((hi as u64) << 32)
}

/// UZP2 on words: the high word of `a`, then the high word of `b`.
pub fn helper_uzp2_32(a: u64, b: u64) -> (r: u64)
    ensures
        lo32(r) == hi32(a),
        hi32(r) == hi32(b),
{
    let a1 = a >> 32;
    let b1 = b >> 32;
    proof {
        lemma_words(0, 0, a);
        lemma_words(0, 0, b);
        lemma_words(hi32(a), hi32(b), 0);
    }
    a1 | (b1 << 32)
}

/// UZP1 on words: the low word of `a`, then the low word of `b`.
pub fn helper_uzp1_32(a: u64, b: u64) -> (r: u64)
    ensures
        lo32(r) == lo32(a),
        hi32(r) == lo32(b),
{
    let a0 = a & 0xffff_ffff;
    let b0 = b & 0xffff_ffff;
    proof {
        lemma_words(0, 0, a);
        lemma_words(0, 0, b);
        lemma_words(lo32(a), lo32(b), 0);
    }
    a0 | (b0 << 32)
}

/// XTN from doublewords to words: the low words of `lo` and `hi`.
pub fn helper_xtn32(lo: u64, hi: u64) -> (r: u64)
    ensures
        lo32(r) == lo32(lo),
        hi32(r) == lo32(hi),
{
    let e0 = lo as u32 as u64;
    let e1 = hi as u32 as u64;
    proof {
        lemma_words(e0 as u32, e1 as u32, 0);
    }
    e0 | (e1 << 32)
}

/// REV64 on words: swaps the two words of `a`.
pub fn helper_rev64_2s(a: u64) -> (r: u64)
    ensures
        lo32(r) == hi32(a),
        hi32(r) == lo32(a),
{
    let lo = a as u32;
    let hi = (a >> 32) as u32;
    proof {
        lemma_words(hi, lo, 0);
    }
    (hi as u64) | ((lo as u64) << 32)
}

/// Word of a multiply-accumulate: `d + n * m` modulo 2^32.
pub open spec fn mla32_word(d: u32, n: u32, m: u32) -> u32 {
    ((d + n * m) % 0x1_0000_0000) as u32
}

/// Word of a multiply-subtract: `d - n * m` modulo 2^32.
pub open spec fn mls32_word(d: u32, n: u32, m: u32) -> u32 {
    ((d - n * m) % 0x1_0000_0000) as u32
}

/// MUL by element on words: each word of `a` times the low word of
/// `scalar`, modulo 2^32.
pub fn helper_mul32_elem(a: u64, scalar: u64) -> (r: u64)
    ensures
        lo32(r) == mul32_word(lo32(a), lo32(scalar)),
        hi32(r) == mul32_word(hi32(a), lo32(scalar)),
{
    let s = scalar as u32;
    let lo = (a as u32).wrapping_mul(s) as u64;
    let hi = ((a >> 32) as u32).wrapping_mul(s) as u64;
    proof {
        lemma_words(lo as u32, hi as u32, 0);
    }
    lo | (hi << 32)
}

/// MLA by element on words: each word of `vd` plus the product of the
/// matching word of `vn` and the low word of `scalar`, modulo 2^32.
pub fn helper_mla32_elem(vd: u64, vn: u64, scalar: u64) -> (r: u64)
    ensures
        lo32(r) == mla32_word(lo32(vd), lo32(vn), lo32(scalar)),
        hi32(r) == mla32_word(hi32(vd), hi32(vn), lo32(scalar)),
{
    let s = scalar as u32;
    let lo = (vd as u32).wrapping_add((vn as u32).wrapping_mul(s)) as u64;
    let hi = ((vd >> 32) as u32).wrapping_add(((vn >> 32) as u32).wrapping_mul(s)) as u64;
    proof {
        lemma_mul_add_mod(lo32(vd), lo32(vn), lo32(scalar));
        lemma_mul_add_mod(hi32(vd), hi32(vn), lo32(scalar));
        lemma_words(lo as u32, hi as u32, 0);
    }
    lo | (hi << 32)
}

/// MLA on words: `vd + vn * vm` word by word, modulo 2^32.
pub fn helper_mla32(vd: u64, vn: u64, vm: u64) -> (r: u64)
    ensures
        lo32(r) == mla32_word(lo32(vd), lo32(vn), lo32(vm)),
        hi32(r) == mla32_word(hi32(vd), hi32(vn), hi32(vm)),
{
    let lo = (vd as u32).wrapping_add((vn as u32).wrapping_mul(vm as u32)) as u64;
    let hi = ((vd >> 32) as u32).wrapping_add(((vn >> 32) as u32).wrapping_mul((vm >> 32) as u32))
        as u64;
    proof {
        lemma_mul_add_mod(lo32(vd), lo32(vn), lo32(vm));
        lemma_mul_add_mod(hi32(vd), hi32(vn), hi32(vm));
        lemma_words(lo as u32, hi as u32, 0);
    }
    lo | (hi << 32)
}

/// MLS on words: `vd - vn * vm` word by word, modulo 2^32.
pub fn helper_mls32(vd: u64, vn: u64, vm: u64) -> (r: u64)
    ensures
        lo32(r) == mls32_word(lo32(vd), lo32(vn), lo32(vm)),
        hi32(r) == mls32_word(hi32(vd), hi32(vn), hi32(vm)),
{
    let lo = (vd as u32).wrapping_sub((vn as u32).wrapping_mul(vm as u32)) as u64;
    let hi = ((vd >> 32) as u32).wrapping_sub(((vn >> 32) as u32).wrapping_mul((vm >> 32) as u32))
        as u64;
    proof {
        lemma_mul_add_mod(lo32(vd), lo32(vn), lo32(vm));
        lemma_mul_add_mod(hi32(vd), hi32(vn), hi32(vm));
        lemma_words(lo as u32, hi as u32, 0);
    }
    lo | (hi << 32)
}

/// Reducing a product before adding or subtracting it does not change the
/// result modulo 2^32.
proof fn lemma_mul_add_mod(d: u32, n: u32, m: u32)
    ensures
        (d + (n * m) % 0x1_0000_0000) % 0x1_0000_0000 == (d + n * m) % 0x1_0000_0000,
        (d - (n * m) % 0x1_0000_0000) % 0x1_0000_0000 == (d - n * m) % 0x1_0000_0000,
{
    vstd::arithmetic::div_mod::lemma_add_mod_noop(d as int, n * m, 0x1_0000_0000);
    vstd::arithmetic::div_mod::lemma_sub_mod_noop(d as int, n * m, 0x1_0000_0000);
    vstd::arithmetic::div_mod::lemma_mod_twice(d as int, 0x1_0000_0000);
    assert((d as int) % 0x1_0000_0000 == d);
}

/// ADDV on words: the sum of the four words of `lo` and `hi`, modulo 2^32.
pub fn helper_addv32(lo: u64, hi: u64) -> (r: u64)
    ensures
        r == (lo32(lo) + hi32(lo) + lo32(hi) + hi32(hi)) % 0x1_0000_0000,
{
    let s0 = (lo as u32).wrapping_add((lo >> 32) as u32);
    let s1 = (hi as u32).wrapping_add((hi >> 32) as u32);
    proof {
        let (a, b, c, d) = (lo32(lo) as int, hi32(lo) as int, lo32(hi) as int, hi32(hi) as int);
        vstd::arithmetic::div_mod::lemma_add_mod_noop(a + b, c + d, 0x1_0000_0000);
    }
    s0.wrapping_add(s1) as u64
}

/// Reduction of the two words of `a` to their unsigned maximum.
pub fn helper_umaxv32_reduce(a: u64) -> (r: u64)
    ensures
        r == umax32_word(lo32(a), hi32(a)),
{
    (a as u32).max((a >> 32) as u32) as u64
}

/// Reduction of the two words of `a` to their unsigned minimum.
pub fn helper_uminv32_reduce(a: u64) -> (r: u64)
    ensures
        r == umin32_word(lo32(a), hi32(a)),
{
    (a as u32).min((a >> 32) as u32) as u64
}

/// Reduction of the two words of `a` to their signed maximum.
pub fn helper_smaxv32_reduce(a: u64) -> (r: u64)
    ensures
        r == smax32_word(lo32(a), hi32(a)),
{
    proof {
        lemma_words(0, 0, a);
    }
    (a as i32).max((a >> 32) as i32) as u32 as u64
}

/// Reduction of the two words of `a` to their signed minimum.
pub fn helper_sminv32_reduce(a: u64) -> (r: u64)
    ensures
        r == smin32_word(lo32(a), hi32(a)),
{
    proof {
        lemma_words(0, 0, a);
    }
    (a as i32).min((a >> 32) as i32) as u32 as u64
}

/// Signed comparison of the whole values: all ones when `a > b`, else 0.
pub fn helper_cmgt64(a: u64, b: u64) -> (r: u64)
    ensures
        r == if (a as i64) > (b as i64) {
            0xffff_ffff_ffff_ffffu64
        } else {
            0
        },
        r == if sx64(a) > sx64(b) {
            0xffff_ffff_ffff_ffffu64
        } else {
            0
        },
{
    proof {
        lemma_sign_view(0, 0, 0, 0, a);
        lemma_sign_view(0, 0, 0, 0, b);
    }
    proof {
        lemma_words(0, 0, 0);
    }
    if (a as i64) > (b as i64) {
        !0
    } else {
        0
    }
}

/// All ones when `a` is non-negative as a signed value, else 0.
pub fn helper_cmge_scalar(a: u64) -> (r: u64)
    ensures
        r == if (a as i64) >= 0 {
            0xffff_ffff_ffff_ffffu64
        } else {
            0
        },
        r == if sx64(a) >= 0 {
            0xffff_ffff_ffff_ffffu64
        } else {
            0
        },
{
    proof {
        lemma_sign_view(0, 0, 0, 0, a);
        lemma_sign_view(0, 0, 0, 0, a);
    }
    proof {
        lemma_words(0, 0, 0);
    }
    if (a as i64) >= 0 {
        !0u64
    } else {
        0
    }
}

/// All ones when `a` is positive as a signed value, else 0.
pub fn helper_cmgt_scalar(a: u64) -> (r: u64)
    ensures
        r == if (a as i64) > 0 {
            0xffff_ffff_ffff_ffffu64
        } else {
            0
        },
        r == if sx64(a) > 0 {
            0xffff_ffff_ffff_ffffu64
        } else {
            0
        },
{
    proof {
        lemma_sign_view(0, 0, 0, 0, a);
        lemma_sign_view(0, 0, 0, 0, a);
    }
    proof {
        lemma_words(0, 0, 0);
    }
    if (a as i64) > 0 {
        !0u64
    } else {
        0
    }
}

/// All ones when `a` is zero or negative as a signed value, else 0.
pub fn helper_cmle_scalar(a: u64) -> (r: u64)
    ensures
        r == if (a as i64) <= 0 {
            0xffff_ffff_ffff_ffffu64
        } else {
            0
        },
        r == if sx64(a) <= 0 {
            0xffff_ffff_ffff_ffffu64
        } else {
            0
        },
{
    proof {
        lemma_sign_view(0, 0, 0, 0, a);
        lemma_sign_view(0, 0, 0, 0, a);
    }
    proof {
        lemma_words(0, 0, 0);
    }
    if (a as i64) <= 0 {
        !0u64
    } else {
        0
    }
}

/// BIT: each bit comes from `vn` where `vm` has it set, else from `vd`.
pub fn helper_bit(vd: u64, vn: u64, vm: u64) -> (r: u64)
    ensures
        forall|j: u64| j < 64 ==> #[trigger] bit(r, j) == if bit(vm, j) {
            bit(vn, j)
        } else {
            bit(vd, j)
        },
{
    let r = (vd & !vm) | (vn & vm);
    proof {
        assert forall|j: u64| j < 64 implies #[trigger] bit(r, j) == if bit(vm, j) {
            bit(vn, j)
        } else {
            bit(vd, j)
        } by {
            lemma_bitsel(vd, vn, vm, j);
        }
    }
    r
}

/// BIF: each bit comes from `vd` where `vm` has it set, else from `vn`.
pub fn helper_bif(vd: u64, vn: u64, vm: u64) -> (r: u64)
    ensures
        forall|j: u64| j < 64 ==> #[trigger] bit(r, j) == if bit(vm, j) {
            bit(vd, j)
        } else {
            bit(vn, j)
        },
{
    let r = (vd & vm) | (vn & !vm);
    proof {
        assert forall|j: u64| j < 64 implies #[trigger] bit(r, j) == if bit(vm, j) {
            bit(vd, j)
        } else {
            bit(vn, j)
        } by {
            lemma_bitsel(vd, vn, vm, j);
        }
    }
    r
}

/// BSL: each bit comes from `vn` where `vd` has it set, else from `vm`.
pub fn helper_bsl(vd: u64, vn: u64, vm: u64) -> (r: u64)
    ensures
        forall|j: u64| j < 64 ==> #[trigger] bit(r, j) == if bit(vd, j) {
            bit(vn, j)
        } else {
            bit(vm, j)
        },
{
    let r = (vn & vd) | (vm & !vd);
    proof {
        assert forall|j: u64| j < 64 implies #[trigger] bit(r, j) == if bit(vd, j) {
            bit(vn, j)
        } else {
            bit(vm, j)
        } by {
            lemma_bitsel(vd, vn, vm, j);
        }
    }
    r
}

/// Word of `ushl32`: an unsigned word shifted left by a signed amount (right
/// when negative); shifts of 32 or more either way give 0.
pub open spec fn ushl32_word(n: u32, s: i8) -> u32 {
    let k = s as int;
    if k >= 32 || k <= -32 {
        0
    } else if k >= 0 {
        n << (k as u32)
    } else {
        n >> ((-k) as u32)
    }
}

/// One word of `ushl32`.
fn ushl_word(n: u32, shift: i32) -> (r: u32)
    requires
        -128 <= shift < 128,
    ensures
        r == ushl32_word(n, shift as i8),
{
    if shift >= 32 || shift <= -32 {
        0u32
    } else if shift >= 0 {
        n.wrapping_shl(shift as u32)
    } else {
        n.wrapping_shr((-shift) as u32)
    }
}

/// USHL on words: each word of `vn` shifted by the signed low byte of the
/// matching word of `vm`.
pub fn helper_ushl32(vn: u64, vm: u64) -> (r: u64)
    ensures
        lo32(r) == ushl32_word(lo32(vn), vm as i8),
        hi32(r) == ushl32_word(hi32(vn), (vm >> 32) as i8),
{
    let shift0 = (vm as i8) as i32;
    let shift1 = ((vm >> 32) as i8) as i32;
    let n0 = vn as u32;
    let n1 = (vn >> 32) as u32;
    let r0 = ushl_word(n0, shift0);
    let r1 = ushl_word(n1, shift1);
    proof {
        lemma_words(r0, r1, 0);
    }
    (r0 as u64) | ((r1 as u64) << 32)
}

/// Word of `sshl32`: a signed word shifted left by a signed amount
/// (arithmetically right when negative); large right shifts leave the sign,
/// large left shifts give 0.
pub open spec fn sshl32_word(n: u32, s: i8) -> u32 {
    let x = n as i32;
    let k = s as int;
    (if k >= 32 {
        0i32
    } else if k <= -32 {
        x >> 31u32
    } else if k >= 0 {
        x << (k as u32)
    } else {
        x >> ((-k) as u32)
    }) as u32
}

/// One word of `sshl32`.
fn sshl_word(n: i32, shift: i32) -> (r: i32)
    requires
        -128 <= shift < 128,
    ensures
        r as u32 == sshl32_word(n as u32, shift as i8),
{
    proof {
        lemma_sign_view(0, 0, n, 0, 0);
    }
    if shift >= 32 {
        0i32
    } else if shift <= -32 {
        n >> 31u32
    } else if shift >= 0 {
        n.wrapping_shl(shift as u32)
    } else {
        n >> ((-shift) as u32)
    }
}

/// SSHL on words: each signed word of `vn` shifted by the signed low byte of
/// the matching word of `vm`.
pub fn helper_sshl32(vn: u64, vm: u64) -> (r: u64)
    ensures
        lo32(r) == sshl32_word(lo32(vn), vm as i8),
        hi32(r) == sshl32_word(hi32(vn), (vm >> 32) as i8),
{
    let shift0 = (vm as i8) as i32;
    let shift1 = ((vm >> 32) as i8) as i32;
    let n0 = vn as u32 as i32;
    let n1 = (vn >> 32) as u32 as i32;
    let r0 = sshl_word(n0, shift0);
    let r1 = sshl_word(n1, shift1);
    proof {
        lemma_words(0, 0, vn);
        lemma_words(r0 as u32, r1 as u32, 0);
    }
    (r0 as u32 as u64) | ((r1 as u32 as u64) << 32)
}

/// USHL on a doubleword: `vn` shifted by the signed amount `vm` (right when
/// negative); shifts of 64 or more either way give 0.
pub fn helper_ushl64(vn: u64, vm: u64) -> (r: u64)
    ensures
        r == ({
            let k = (vm as i64) as int;
            if k >= 64 || k <= -64 {
                0
            } else if k >= 0 {
                vn << (k as u32)
            } else {
                vn >> ((-k) as u32)
            }
        }),
{
    let shift = vm as i64;
    if shift >= 64 || shift <= -64 {
        0
    } else if shift >= 0 {
        vn.wrapping_shl(shift as u32)
    } else {
        vn.wrapping_shr((-shift) as u32)
    }
}

/// SSHL on a doubleword: the signed value `vn` shifted by the signed amount
/// `vm` (arithmetically right when negative); large right shifts leave the
/// sign, large left shifts give 0.
pub fn helper_sshl64(vn: u64, vm: u64) -> (r: u64)
    ensures
        r == ({
            let n = vn as i64;
            let k = (vm as i64) as int;
            (if k >= 64 {
                0i64
            } else if k <= -64 {
                n >> 63u32
            } else if k >= 0 {
                n << (k as u32)
            } else {
                n >> ((-k) as u32)
            }) as u64
        }),
{
    let shift = vm as i64;
    let n = vn as i64;
    let r = if shift >= 64 {
        0i64
    } else if shift <= -64 {
        n >> 63u32
    } else if shift >= 0 {
        n.wrapping_shl(shift as u32)
    } else {
        n >> ((-shift) as u32)
    };
    r as u64
}

/// Lanes of `ushll8`: the low four bytes of `a` widened to halfwords and
/// shifted left by `shift`.
pub open spec fn ushll8_lanes(a: u64, shift: u64) -> spec_fn(u64) -> u64 {
    |i: u64| ((lane8(a, i) as u16) << shift) as u64
}

/// USHLL from bytes: the low four bytes of `a` zero-extended to halfwords
/// and shifted left by `shift`.
pub fn helper_ushll8(a: u64, shift: u64) -> (r: u64)
    requires
        shift < 16,
    ensures
        lanes16_upto(r, 4, ushll8_lanes(a, shift)),
{
    let mut r = 0u64;
    let mut i: u64 = 0;
    proof {
        lemma_lanes16_start(ushll8_lanes(a, shift));
    }
    while i < 4
        invariant
            i <= 4,
            shift < 16,
            lanes16_upto(r, i, ushll8_lanes(a, shift)),
        decreases 4 - i,
    {
        proof {
            lemma_masks(a >> (i * 8));
        }
        let byte = ((a >> (i * 8)) & 0xff) as u16;
        let wide = byte << shift;
        proof {
            lemma_lane16_next(r, wide as u64, i, ushll8_lanes(a, shift));
        }
        r |= (wide as u64) << (i * 16);
        i += 1;
    }
    r
}

/// Lanes of `sshll8`: the low four bytes of `a` sign-extended to halfwords
/// and shifted left by `shift`.
pub open spec fn sshll8_lanes(a: u64, shift: u64) -> spec_fn(u64) -> u64 {
    |i: u64| ((((lane8(a, i) as u8) as i8) as i16) << shift) as u16 as u64
}

/// SSHLL from bytes: the low four bytes of `a` sign-extended to halfwords
/// and shifted left by `shift`.
pub fn helper_sshll8(a: u64, shift: u64) -> (r: u64)
    requires
        shift < 16,
    ensures
        lanes16_upto(r, 4, sshll8_lanes(a, shift)),
{
    let mut r = 0u64;
    let mut i: u64 = 0;
    proof {
        lemma_lanes16_start(sshll8_lanes(a, shift));
    }
    while i < 4
        invariant
            i <= 4,
            shift < 16,
            lanes16_upto(r, i, sshll8_lanes(a, shift)),
        decreases 4 - i,
    {
        let byte = ((a >> (i * 8)) & 0xff) as u8 as i8;
        let wide = ((byte as i16) << shift) as u16;
        proof {
            lemma_lane16_next(r, wide as u64, i, sshll8_lanes(a, shift));
        }
        r |= (wide as u64) << (i * 16);
        i += 1;
    }
    r
}

/// SSHLL from halfwords: the low two halfwords of `a` sign-extended to
/// words and shifted left by `shift`.
pub fn helper_sshll16(a: u64, shift: u64) -> (r: u64)
    requires
        shift < 32,
    ensures
        lo32(r) == ((((lane16(a, 0) as u16) as i16) as i32) << shift) as u32,
        hi32(r) == ((((lane16(a, 1) as u16) as i16) as i32) << shift) as u32,
{
    let e0 = (a & 0xffff) as u16 as i16;
    let e1 = ((a >> 16) & 0xffff) as u16 as i16;
    let w0 = ((e0 as i32) << shift) as u32 as u64;
    let w1 = ((e1 as i32) << shift) as u32 as u64;
    proof {
        lemma_words(0, 0, a);
        lemma_words(w0 as u32, w1 as u32, 0);
    }
    w0 | (w1 << 32)
}

/// USHLL from halfwords: the low two halfwords of `a` zero-extended to
/// words and shifted left by `shift`.
pub fn helper_ushll16(a: u64, shift: u64) -> (r: u64)
    requires
        shift < 32,
    ensures
        lo32(r) == (lane16(a, 0) as u32) << shift,
        hi32(r) == (lane16(a, 1) as u32) << shift,
{
    proof {
        lemma_words(0, 0, a);
        lemma_masks(a);
        lemma_masks(a >> 16);
    }
    let e0 = (a & 0xffff) as u32;
    let e1 = ((a >> 16) & 0xffff) as u32;
    let w0 = (e0 << shift) as u64;
    let w1 = (e1 << shift) as u64;
    proof {
        lemma_words(w0 as u32, w1 as u32, 0);
    }
    w0 | (w1 << 32)
}

/// Word of a widening difference of two halfwords, modulo 2^32.
pub open spec fn usubl16_word(x: u64, y: u64) -> u32 {
    ((x - y) % 0x1_0000_0000) as u32
}

/// USUBL on the low halfwords: halfwords 0 and 1 of `n` minus those of
/// `m`, widened to words.
pub fn helper_usubl16_lo(n: u64, m: u64) -> (r: u64)
    ensures
        lo32(r) == usubl16_word(lane16(n, 0), lane16(m, 0)),
        hi32(r) == usubl16_word(lane16(n, 1), lane16(m, 1)),
{
    proof {
        lemma_words(0, 0, n);
        lemma_words(0, 0, m);
        lemma_words(0, 0, n >> 16);
        lemma_words(0, 0, m >> 16);
    }
    let n0 = (n as u16) as u32;
    let n1 = ((n >> 16) as u16) as u32;
    let m0 = (m as u16) as u32;
    let m1 = ((m >> 16) as u16) as u32;
    let r0 = n0.wrapping_sub(m0) as u64;
    let r1 = n1.wrapping_sub(m1) as u64;
    proof {
        lemma_words(r0 as u32, r1 as u32, 0);
    }
    r0 | (r1 << 32)
}

/// USUBL on the high halfwords: halfwords 2 and 3 of `n` minus those of
/// `m`, widened to words.
pub fn helper_usubl16_hi(n: u64, m: u64) -> (r: u64)
    ensures
        lo32(r) == usubl16_word(lane16(n, 2), lane16(m, 2)),
        hi32(r) == usubl16_word(lane16(n, 3), lane16(m, 3)),
{
    proof {
        lemma_words(0, 0, n >> 32);
        lemma_words(0, 0, m >> 32);
        lemma_words(0, 0, n >> 48);
        lemma_words(0, 0, m >> 48);
    }
    let n0 = ((n >> 32) as u16) as u32;
    let n1 = ((n >> 48) as u16) as u32;
    let m0 = ((m >> 32) as u16) as u32;
    let m1 = ((m >> 48) as u16) as u32;
    let r0 = n0.wrapping_sub(m0) as u64;
    let r1 = n1.wrapping_sub(m1) as u64;
    proof {
        lemma_words(r0 as u32, r1 as u32, 0);
    }
    r0 | (r1 << 32)
}

/// Word of a widening add of an unsigned halfword to a word, modulo 2^32.
pub open spec fn uaddw16_word(acc: u32, h: u64) -> u32 {
    ((acc + h) % 0x1_0000_0000) as u32
}

/// UADDW on the low halfwords: halfwords 0 and 1 of `src` added to the
/// words of `acc`.
pub fn helper_uaddw16_lo(acc: u64, src: u64) -> (r: u64)
    ensures
        lo32(r) == uaddw16_word(lo32(acc), lane16(src, 0)),
        hi32(r) == uaddw16_word(hi32(acc), lane16(src, 1)),
{
    proof {
        lemma_words(0, 0, src);
        lemma_words(0, 0, src >> 16);
    }
    let a0 = (acc as u32).wrapping_add((src as u16) as u32) as u64;
    let a1 = ((acc >> 32) as u32).wrapping_add(((src >> 16) as u16) as u32) as u64;
    proof {
        lemma_words(a0 as u32, a1 as u32, 0);
    }
    a0 | (a1 << 32)
}

/// UADDW on the high halfwords: halfwords 2 and 3 of `src` added to the
/// words of `acc`.
pub fn helper_uaddw16_hi(acc: u64, src: u64) -> (r: u64)
    ensures
        lo32(r) == uaddw16_word(lo32(acc), lane16(src, 2)),
        hi32(r) == uaddw16_word(hi32(acc), lane16(src, 3)),
{
    proof {
        lemma_words(0, 0, src >> 32);
        lemma_words(0, 0, src >> 48);
    }
    let a0 = (acc as u32).wrapping_add(((src >> 32) as u16) as u32) as u64;
    let a1 = ((acc >> 32) as u32).wrapping_add(((src >> 48) as u16) as u32) as u64;
    proof {
        lemma_words(a0 as u32, a1 as u32, 0);
    }
    a0 | (a1 << 32)
}

/// Word of a widening add of a signed halfword to a word, modulo 2^32.
pub open spec fn saddw16_word(acc: u32, h: u64) -> u32 {
    ((acc + sx16(h)) % 0x1_0000_0000) as u32
}

/// Word of a widening subtract of a signed halfword from a word, modulo
/// 2^32.
pub open spec fn ssubw16_word(acc: u32, h: u64) -> u32 {
    ((acc - sx16(h)) % 0x1_0000_0000) as u32
}

/// One word of a signed widening add (`sub` false) or subtract (`sub`
/// true): the word `acc` as a signed word combined with the signed halfword
/// `h`, then read back as a word.
fn sadd_word(acc: u32, h: u16, sub: bool) -> (r: u32)
    ensures
        r == if sub {
            ssubw16_word(acc, h as u64)
        } else {
            saddw16_word(acc, h as u64)
        },
{
    let a = acc as i32;
    let s = h as i16 as i32;
    let v = if sub {
        a.wrapping_sub(s)
    } else {
        a.wrapping_add(s)
    };
    proof {
        lemma_sign_view(acc, h, v, 0, 0);
    }
    v as u32
}

/// SADDW on the low halfwords: signed halfwords 0 and 1 of `src` added to
/// the words of `acc`.
pub fn helper_saddw16_lo(acc: u64, src: u64) -> (r: u64)
    ensures
        lo32(r) == saddw16_word(lo32(acc), lane16(src, 0)),
        hi32(r) == saddw16_word(hi32(acc), lane16(src, 1)),
{
    proof {
        lemma_words(0, 0, src);
        lemma_words(0, 0, src >> 16);
    }
    let r0 = sadd_word(acc as u32, src as u16, false) as u64;
    let r1 = sadd_word((acc >> 32) as u32, (src >> 16) as u16, false) as u64;
    proof {
        lemma_words(r0 as u32, r1 as u32, 0);
    }
    r0 | (r1 << 32)
}

/// SADDW on the high halfwords: signed halfwords 2 and 3 of `src` added to
/// the words of `acc`.
pub fn helper_saddw16_hi(acc: u64, src: u64) -> (r: u64)
    ensures
        lo32(r) == saddw16_word(lo32(acc), lane16(src, 2)),
        hi32(r) == saddw16_word(hi32(acc), lane16(src, 3)),
{
    proof {
        lemma_words(0, 0, src >> 32);
        lemma_words(0, 0, src >> 48);
    }
    let r0 = sadd_word(acc as u32, (src >> 32) as u16, false) as u64;
    let r1 = sadd_word((acc >> 32) as u32, (src >> 48) as u16, false) as u64;
    proof {
        lemma_words(r0 as u32, r1 as u32, 0);
    }
    r0 | (r1 << 32)
}

/// SSUBW on the low halfwords: signed halfwords 0 and 1 of `src`
/// subtracted from the words of `acc`.
pub fn helper_ssubw16_lo(acc: u64, src: u64) -> (r: u64)
    ensures
        lo32(r) == ssubw16_word(lo32(acc), lane16(src, 0)),
        hi32(r) == ssubw16_word(hi32(acc), lane16(src, 1)),
{
    proof {
        lemma_words(0, 0, src);
        lemma_words(0, 0, src >> 16);
    }
    let r0 = sadd_word(acc as u32, src as u16, true) as u64;
    let r1 = sadd_word((acc >> 32) as u32, (src >> 16) as u16, true) as u64;
    proof {
        lemma_words(r0 as u32, r1 as u32, 0);
    }
    r0 | (r1 << 32)
}

/// SSUBW on the high halfwords: signed halfwords 2 and 3 of `src`
/// subtracted from the words of `acc`.
pub fn helper_ssubw16_hi(acc: u64, src: u64) -> (r: u64)
    ensures
        lo32(r) == ssubw16_word(lo32(acc), lane16(src, 2)),
        hi32(r) == ssubw16_word(hi32(acc), lane16(src, 3)),
{
    proof {
        lemma_words(0, 0, src >> 32);
        lemma_words(0, 0, src >> 48);
    }
    let r0 = sadd_word(acc as u32, (src >> 32) as u16, true) as u64;
    let r1 = sadd_word((acc >> 32) as u32, (src >> 48) as u16, true) as u64;
    proof {
        lemma_words(r0 as u32, r1 as u32, 0);
    }
    r0 | (r1 << 32)
}

/// SADDW on the low word: `acc` plus the sign-extended low word of `src`,
/// modulo 2^64.
pub fn helper_saddw32_lo(acc: u64, src: u64) -> (r: u64)
    ensures
        r == (acc + sx32(lo32(src))) % 0x1_0000_0000_0000_0000,
{
    let e = (src as u32 as i32 as i64) as u64;
    proof {
        lemma_sign_view(src as u32, 0, 0, src as u32 as i32 as i64, 0);
    }
    acc.wrapping_add(e)
}

/// SADDW on the high word: `acc` plus the sign-extended high word of
/// `src`, modulo 2^64.
pub fn helper_saddw32_hi(acc: u64, src: u64) -> (r: u64)
    ensures
        r == (acc + sx32(hi32(src))) % 0x1_0000_0000_0000_0000,
{
    let e = ((src >> 32) as u32 as i32 as i64) as u64;
    proof {
        lemma_sign_view((src >> 32) as u32, 0, 0, (src >> 32) as u32 as i32 as i64, 0);
    }
    acc.wrapping_add(e)
}

/// The product of two signed words, as a 64-bit two's complement value.
fn smull_word(x: u32, y: u32) -> (r: u64)
    ensures
        r == (sx32(x) * sx32(y)) % 0x1_0000_0000_0000_0000,
{
    let a0 = x as i32 as i64;
    let b0 = y as i32 as i64;
    proof {
        lemma_sign_view(x, 0, 0, 0, 0);
        lemma_sign_view(y, 0, 0, 0, 0);
        assert(-0x8000_0000 <= a0 <= 0x7fff_ffff && -0x8000_0000 <= b0 <= 0x7fff_ffff);
        assert(-0x4000_0000_0000_0000 <= a0 * b0 <= 0x4000_0000_0000_0000) by (nonlinear_arith)
            requires
                -0x8000_0000 <= a0 <= 0x7fff_ffff,
                -0x8000_0000 <= b0 <= 0x7fff_ffff,
        ;
    }
    let p = a0 * b0;
    proof {
        lemma_sign_view(0, 0, 0, p, 0);
    }
    p as u64
}

/// SMULL on the low words: the signed product of the low words of `a` and
/// `b`, as a 64-bit value.
pub fn helper_smull32_lo(a: u64, b: u64) -> (r: u64)
    ensures
        r == (sx32(lo32(a)) * sx32(lo32(b))) % 0x1_0000_0000_0000_0000,
{
    smull_word(a as u32, b as u32)
}

/// SMULL on the high words: the signed product of the high words of `a`
/// and `b`, as a 64-bit value.
pub fn helper_smull32_hi(a: u64, b: u64) -> (r: u64)
    ensures
        r == (sx32(hi32(a)) * sx32(hi32(b))) % 0x1_0000_0000_0000_0000,
{
    smull_word((a >> 32) as u32, (b >> 32) as u32)
}

/// Word of `ssra32`: `acc` plus the signed word `src` shifted right
/// arithmetically by `sh`, modulo 2^32.
pub open spec fn ssra32_word(acc: u32, src: u32, sh: u32) -> u32 {
    ((acc + (((src as i32) >> sh) as u32)) % 0x1_0000_0000) as u32
}

/// SSRA on words: each signed word of `src` shifted right arithmetically by
/// `shift` and added to the matching word of `acc`.
pub fn helper_ssra32(acc: u64, src: u64, shift: u64) -> (r: u64)
    requires
        (shift as u32) < 32,
    ensures
        lo32(r) == ssra32_word(lo32(acc), lo32(src), shift as u32),
        hi32(r) == ssra32_word(hi32(acc), hi32(src), shift as u32),
{
    let sh = shift as u32;
    let s0 = (src as u32 as i32) >> sh;
    let s1 = ((src >> 32) as u32 as i32) >> sh;
    let a0 = (acc as u32).wrapping_add(s0 as u32);
    let a1 = ((acc >> 32) as u32).wrapping_add(s1 as u32);
    proof {
        lemma_words(a0, a1, 0);
    }
    (a0 as u64) | ((a1 as u64) << 32)
}

/// Signed halfword `k` of the eight halfwords `lo` (0-3), `hi` (4-7).
pub open spec fn pair16(lo: u64, hi: u64, k: nat) -> i16 {
    if k < 4 {
        lane16(lo, k as u64) as i16
    } else {
        lane16(hi, (k - 4) as u64) as i16
    }
}

/// Largest of the first `n` signed halfwords of `lo`, `hi` (the most
/// negative halfword for none).
pub open spec fn smax16_upto(lo: u64, hi: u64, n: nat) -> i16
    decreases n,
{
    if n == 0 {
        i16::MIN
    } else {
        let m = smax16_upto(lo, hi, (n - 1) as nat);
        let e = pair16(lo, hi, (n - 1) as nat);
        if e > m {
            e
        } else {
            m
        }
    }
}

/// Smallest of the first `n` signed halfwords of `lo`, `hi` (the largest
/// halfword for none).
pub open spec fn smin16_upto(lo: u64, hi: u64, n: nat) -> i16
    decreases n,
{
    if n == 0 {
        i16::MAX
    } else {
        let m = smin16_upto(lo, hi, (n - 1) as nat);
        let e = pair16(lo, hi, (n - 1) as nat);
        if e < m {
            e
        } else {
            m
        }
    }
}

/// SMAXV on halfwords: the largest of the eight signed halfwords of `lo`
/// and `hi`, as an unsigned halfword.
pub fn helper_smaxv16_pair(lo: u64, hi: u64) -> (r: u64)
    ensures
        r == smax16_upto(lo, hi, 8) as u16 as u64,
{
    let mut m = i16::MIN;
    let mut i: u64 = 0;
    while i < 4
        invariant
            i <= 4,
            m == smax16_upto(lo, hi, i as nat),
        decreases 4 - i,
    {
        let e = ((lo >> (i * 16)) & 0xffff) as i16;
        if e > m {
            m = e;
        }
        i += 1;
    }
    let mut i: u64 = 0;
    while i < 4
        invariant
            i <= 4,
            m == smax16_upto(lo, hi, (i + 4) as nat),
        decreases 4 - i,
    {
        let e = ((hi >> (i * 16)) & 0xffff) as i16;
        proof {
            assert(pair16(lo, hi, (i + 4) as nat) == lane16(hi, i) as i16);
        }
        if e > m {
            m = e;
        }
        i += 1;
    }
    m as u16 as u64
}

/// SMINV on halfwords: the smallest of the eight signed halfwords of `lo`
/// and `hi`, as an unsigned halfword.
pub fn helper_sminv16_pair(lo: u64, hi: u64) -> (r: u64)
    ensures
        r == smin16_upto(lo, hi, 8) as u16 as u64,
{
    let mut m = i16::MAX;
    let mut i: u64 = 0;
    while i < 4
        invariant
            i <= 4,
            m == smin16_upto(lo, hi, i as nat),
        decreases 4 - i,
    {
        let e = ((lo >> (i * 16)) & 0xffff) as i16;
        if e < m {
            m = e;
        }
        i += 1;
    }
    let mut i: u64 = 0;
    while i < 4
        invariant
            i <= 4,
            m == smin16_upto(lo, hi, (i + 4) as nat),
        decreases 4 - i,
    {
        let e = ((hi >> (i * 16)) & 0xffff) as i16;
        proof {
            assert(pair16(lo, hi, (i + 4) as nat) == lane16(hi, i) as i16);
        }
        if e < m {
            m = e;
        }
        i += 1;
    }
    m as u16 as u64
}

/// Logical shift left of the whole value; 0 for shifts of 64 or more.
pub fn helper_shl64(a: u64, shift: u64) -> (r: u64)
    ensures
        r == if shift >= 64 {
            0
        } else {
            a << shift
        },
{
    if shift >= 64 {
        0
    } else {
        a << shift
    }
}

/// SMULL on both words: the signed products of the low words and of the
/// high words of `a` and `b`, each as a 64-bit value.
pub fn helper_smull32(a: u64, b: u64) -> (r: (u64, u64))
    ensures
        r.0 == (sx32(lo32(a)) * sx32(lo32(b))) % 0x1_0000_0000_0000_0000,
        r.1 == (sx32(hi32(a)) * sx32(hi32(b))) % 0x1_0000_0000_0000_0000,
{
    (smull_word(a as u32, b as u32), smull_word((a >> 32) as u32, (b >> 32) as u32))
}

/// `acc` plus the product of two signed words, modulo 2^64.
fn smlal_word(acc: u64, x: u32, y: u32) -> (r: u64)
    ensures
        r == (acc + sx32(x) * sx32(y)) % 0x1_0000_0000_0000_0000,
{
    let n0 = x as i32 as i64;
    let m0 = y as i32 as i64;
    proof {
        lemma_sign_view(x, 0, 0, 0, 0);
        lemma_sign_view(y, 0, 0, 0, 0);
        assert(-0x4000_0000_0000_0000 <= n0 * m0 <= 0x4000_0000_0000_0000) by (nonlinear_arith)
            requires
                -0x8000_0000 <= n0 <= 0x7fff_ffff,
                -0x8000_0000 <= m0 <= 0x7fff_ffff,
        ;
    }
    let p = n0.wrapping_mul(m0);
    let s = (acc as i64).wrapping_add(p);
    proof {
        lemma_sign_view(0, 0, 0, s, acc);
    }
    s as u64
}

/// SMLAL on the low words: `acc` plus the signed product of the low words
/// of `n` and `m`, modulo 2^64.
pub fn helper_smlal32_lo(acc: u64, n: u64, m: u64) -> (r: u64)
    ensures
        r == (acc + sx32(lo32(n)) * sx32(lo32(m))) % 0x1_0000_0000_0000_0000,
{
    smlal_word(acc, n as u32, m as u32)
}

/// SMLAL on the high words: `acc` plus the signed product of the high words
/// of `n` and `m`, modulo 2^64.
pub fn helper_smlal32_hi(acc: u64, n: u64, m: u64) -> (r: u64)
    ensures
        r == (acc + sx32(hi32(n)) * sx32(hi32(m))) % 0x1_0000_0000_0000_0000,
{
    smlal_word(acc, (n >> 32) as u32, (m >> 32) as u32)
}

// ---------------------------------------------------------------------
// Laws
// ---------------------------------------------------------------------

/// Byte-wise subtraction undoes byte-wise addition: `sub8(add8(a, b), b)`
/// is `a`.
pub proof fn law_sub8_undoes_add8(a: u64, b: u64, sum: u64, back: u64)
    requires
        lanes8_upto(sum, 8, add8_lanes(a, b)),
        lanes8_upto(back, 8, sub8_lanes(sum, b)),
    ensures
        back == a,
{
    assert forall|i: u64| i < 8 implies lane8(back, i) == lane8(a, i) by {
        lemma_masks(a >> ((i * 8) as u64));
        lemma_masks(b >> ((i * 8) as u64));
        assert(lane8(sum, i) == add8_lanes(a, b)(i));
        assert(lane8(back, i) == sub8_lanes(sum, b)(i));
    }
    law_lanes8_determine(back, a);
}

/// Negating every byte twice gives the value back.
pub proof fn law_neg8_twice(a: u64, n1: u64, n2: u64)
    requires
        lanes8_upto(n1, 8, neg8_lanes(a)),
        lanes8_upto(n2, 8, neg8_lanes(n1)),
    ensures
        n2 == a,
{
    assert forall|i: u64| i < 8 implies lane8(n2, i) == lane8(a, i) by {
        lemma_masks(a >> ((i * 8) as u64));
        assert(lane8(n1, i) == neg8_lanes(a)(i));
        assert(lane8(n2, i) == neg8_lanes(n1)(i));
    }
    law_lanes8_determine(n2, a);
}

/// Interleaving two values and taking the even and the odd bytes of the
/// result gives them back: UZP1 and UZP2 undo ZIP1 and ZIP2.
pub proof fn law_uzp_undoes_zip(a: u64, b: u64, lo: u64, hi: u64, even: u64, odd: u64)
    requires
        lanes8_upto(lo, 8, zip1_8_lanes(a, b)),
        lanes8_upto(hi, 8, zip2_8_lanes(a, b)),
        lanes8_upto(even, 8, uzp1_8_lanes(lo, hi)),
        lanes8_upto(odd, 8, uzp2_8_lanes(lo, hi)),
    ensures
        even == a,
        odd == b,
{
    assert forall|i: u64| i < 8 implies lane8(even, i) == lane8(a, i) && lane8(odd, i) == lane8(b, i) by {
        assert(lane8(even, i) == uzp1_8_lanes(lo, hi)(i));
        assert(lane8(odd, i) == uzp2_8_lanes(lo, hi)(i));
        if i < 4 {
            assert(lane8(lo, (2 * i) as u64) == zip1_8_lanes(a, b)((2 * i) as u64));
            assert(lane8(lo, (2 * i + 1) as u64) == zip1_8_lanes(a, b)((2 * i + 1) as u64));
        } else {
            assert(lane8(hi, (2 * (i - 4)) as u64) == zip2_8_lanes(a, b)((2 * (i - 4)) as u64));
            assert(lane8(hi, (2 * (i - 4) + 1) as u64) == zip2_8_lanes(a, b)(
                (2 * (i - 4) + 1) as u64,
            ));
        }
    }
    law_lanes8_determine(even, a);
    law_lanes8_determine(odd, b);
}

/// Reversing the halfwords twice gives the value back.
pub proof fn law_rev64_16_twice(a: u64, r1: u64, r2: u64)
    requires
        lanes16_upto(r1, 4, rev64_16_lanes(a)),
        lanes16_upto(r2, 4, rev64_16_lanes(r1)),
    ensures
        r2 == a,
{
    assert forall|i: u64| i < 4 implies lane16(r2, i) == lane16(a, i) by {
        assert(lane16(r2, i) == rev64_16_lanes(r1)(i));
        assert(lane16(r1, (3 - i) as u64) == rev64_16_lanes(a)((3 - i) as u64));
    }
    law_lanes16_determine(r2, a);
}

/// Word-wise subtraction undoes word-wise addition.
pub proof fn law_sub32_undoes_add32(a: u64, b: u64, sum: u64, back: u64)
    requires
        lo32(sum) == add32_word(lo32(a), lo32(b)),
        hi32(sum) == add32_word(hi32(a), hi32(b)),
        lo32(back) == sub32_word(lo32(sum), lo32(b)),
        hi32(back) == sub32_word(hi32(sum), hi32(b)),
    ensures
        back == a,
{
    law_words_determine(back, a);
}

} // verus!
