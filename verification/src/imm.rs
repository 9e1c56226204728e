//! Decoding of A64 immediate encodings: logical bitmask immediates, the
//! 8-bit floating-point immediates of FMOV, the modified immediates of the
//! AdvSIMD MOVI/MVNI/ORR/BIC/FMOV group, and the size/opc fields of SIMD&FP
//! loads and stores.

use vstd::prelude::*;

use crate::lanes::{
    bit, lane8, lanes8_upto, law_lanes8_determine, lemma_lane8_next, lemma_lane8_skip,
    lemma_lanes8_start,
};

verus! {

/// Index of the highest set bit of a non-zero 6-bit value.
pub open spec fn highest_bit6(x: u32) -> u32 {
    if x >= 32 {
        5
    } else if x >= 16 {
        4
    } else if x >= 8 {
        3
    } else if x >= 4 {
        2
    } else if x >= 2 {
        1
    } else {
        0
    }
}

/// log2 of the element size of a logical immediate, or -1 when the
/// `N:NOT(imms)` field has no set bit at all.
pub open spec fn bitmask_len(n: u32, imms: u32) -> int {
    if n != 0 {
        6
    } else if (!imms & 0x3f) == 0 {
        -1
    } else {
        highest_bit6(!imms & 0x3f) as int
    }
}

/// Element size of a logical immediate: `2^len`.
pub open spec fn bitmask_esize(n: u32, imms: u32) -> nat {
    if bitmask_len(n, imms) == 6 {
        64
    } else if bitmask_len(n, imms) == 5 {
        32
    } else if bitmask_len(n, imms) == 4 {
        16
    } else if bitmask_len(n, imms) == 3 {
        8
    } else if bitmask_len(n, imms) == 2 {
        4
    } else {
        2
    }
}

/// The fields encode a logical immediate: the element size is at least 2
/// and the run of ones does not fill the whole element.
pub open spec fn bitmask_valid(n: u32, imms: u32) -> bool {
    &&& bitmask_len(n, imms) >= 1
    &&& (imms as int) % (bitmask_esize(n, imms) as int) != bitmask_esize(n, imms) - 1
}

/// Bit `i` of the decoded immediate: an element of `S + 1` ones rotated right
/// by `R` and replicated across 64 bits (only the low 32 bits when `!sf`).
/// `S` and `R` are `imms` and `immr` reduced modulo the element size.
pub open spec fn bitmask_bit(sf: bool, n: u32, immr: u32, imms: u32, i: int) -> bool {
    let e = bitmask_esize(n, imms) as int;
    let s = (imms as int) % e;
    let r = (immr as int) % e;
    (sf || i < 32) && ((i % e) + r) % e <= s
}

/// Replication of the low `sz` bits of `x` by repeated doubling up to 64.
pub open spec fn replicate(x: u64, sz: u64) -> u64
    decreases 128 - sz,
{
    if sz >= 64 || sz == 0 {
        x
    } else {
        replicate(x | (x << sz), (2 * sz) as u64)
    }
}

/// The replicated element for each element size, as a bit-level fact.
proof fn lemma_bitmask_bits(size: u64, s: u64, r: u64, elem: u64, imm: u64)
    requires
        size == 2 || size == 4 || size == 8 || size == 16 || size == 32 || size == 64,
        s < size - 1,
        r < size,
        elem == (if r == 0 {
            ((1u64 << (s + 1)) - 1) as u64
        } else {
            (((((1u64 << (s + 1)) - 1) as u64) >> r) | ((((1u64 << (s + 1)) - 1) as u64) << ((
            size - r) as u64))) & (if size >= 64 {
                0xffff_ffff_ffff_ffffu64
            } else {
                ((1u64 << size) - 1) as u64
            })
        }),
        imm == replicate(elem, size),
    ensures
        forall|i: u64|
            i < 64 ==> (#[trigger] ((imm >> i) & 1) == 1) == (((i % size) + r) % (size as int) <= s),
{
    reveal_with_fuel(replicate, 7);
    assert((1u64 << 2u64) == 4 && (1u64 << 4u64) == 16 && (1u64 << 8u64) == 256 && (1u64
        << 16u64) == 0x10000 && (1u64 << 32u64) == 0x1_0000_0000) by (bit_vector);
    if size == 2 {
        let x1 = elem | (elem << 2u64);
        let x2 = x1 | (x1 << 4u64);
        let x3 = x2 | (x2 << 8u64);
        let x4 = x3 | (x3 << 16u64);
        let x5 = x4 | (x4 << 32u64);
        assert(imm == x5);
        assert(forall|i: u64| i < 64 ==> (#[trigger] ((x5 >> i) & 1) == 1) == (((i % 2) + r) % (2 as int)
            <= s)) by (bit_vector)
            requires
                s < 1,
                r < 2,
                elem == (if r == 0 {
                    ((1u64 << (s + 1)) - 1) as u64
                } else {
                    (((((1u64 << (s + 1)) - 1) as u64) >> r) | ((((1u64 << (s + 1)) - 1) as u64)
                        << ((2 - r) as u64))) & 3u64
                }),
                x1 == elem | (elem << 2u64),
                x2 == x1 | (x1 << 4u64),
                x3 == x2 | (x2 << 8u64),
                x4 == x3 | (x3 << 16u64),
                x5 == x4 | (x4 << 32u64),
        ;
    } else if size == 4 {
        let x2 = elem | (elem << 4u64);
        let x3 = x2 | (x2 << 8u64);
        let x4 = x3 | (x3 << 16u64);
        let x5 = x4 | (x4 << 32u64);
        assert(imm == x5);
        assert(forall|i: u64| i < 64 ==> (#[trigger] ((x5 >> i) & 1) == 1) == (((i % 4) + r) % (4 as int)
            <= s)) by (bit_vector)
            requires
                s < 3,
                r < 4,
                elem == (if r == 0 {
                    ((1u64 << (s + 1)) - 1) as u64
                } else {
                    (((((1u64 << (s + 1)) - 1) as u64) >> r) | ((((1u64 << (s + 1)) - 1) as u64)
                        << ((4 - r) as u64))) & 15u64
                }),
                x2 == elem | (elem << 4u64),
                x3 == x2 | (x2 << 8u64),
                x4 == x3 | (x3 << 16u64),
                x5 == x4 | (x4 << 32u64),
        ;
    } else if size == 8 {
        let x3 = elem | (elem << 8u64);
        let x4 = x3 | (x3 << 16u64);
        let x5 = x4 | (x4 << 32u64);
        assert(imm == x5);
        assert(forall|i: u64| i < 64 ==> (#[trigger] ((x5 >> i) & 1) == 1) == (((i % 8) + r) % (8 as int)
            <= s)) by (bit_vector)
            requires
                s < 7,
                r < 8,
                elem == (if r == 0 {
                    ((1u64 << (s + 1)) - 1) as u64
                } else {
                    (((((1u64 << (s + 1)) - 1) as u64) >> r) | ((((1u64 << (s + 1)) - 1) as u64)
                        << ((8 - r) as u64))) & 255u64
                }),
                x3 == elem | (elem << 8u64),
                x4 == x3 | (x3 << 16u64),
                x5 == x4 | (x4 << 32u64),
        ;
    } else if size == 16 {
        let x4 = elem | (elem << 16u64);
        let x5 = x4 | (x4 << 32u64);
        assert(imm == x5);
        assert(forall|i: u64| i < 64 ==> (#[trigger] ((x5 >> i) & 1) == 1) == (((i % 16) + r) % (16 as int)
            <= s)) by (bit_vector)
            requires
                s < 15,
                r < 16,
                elem == (if r == 0 {
                    ((1u64 << (s + 1)) - 1) as u64
                } else {
                    (((((1u64 << (s + 1)) - 1) as u64) >> r) | ((((1u64 << (s + 1)) - 1) as u64)
                        << ((16 - r) as u64))) & 0xffffu64
                }),
                x4 == elem | (elem << 16u64),
                x5 == x4 | (x4 << 32u64),
        ;
    } else if size == 32 {
        let x5 = elem | (elem << 32u64);
        assert(imm == x5);
        assert(forall|i: u64| i < 64 ==> (#[trigger] ((x5 >> i) & 1) == 1) == (((i % 32) + r) % (32 as int)
            <= s)) by (bit_vector)
            requires
                s < 31,
                r < 32,
                elem == (if r == 0 {
                    ((1u64 << (s + 1)) - 1) as u64
                } else {
                    (((((1u64 << (s + 1)) - 1) as u64) >> r) | ((((1u64 << (s + 1)) - 1) as u64)
                        << ((32 - r) as u64))) & 0xffff_ffffu64
                }),
                x5 == elem | (elem << 32u64),
        ;
    } else {
        assert(imm == elem);
        assert(forall|i: u64| i < 64 ==> (#[trigger] ((elem >> i) & 1) == 1) == (((i % 64) + r)
            % (64 as int) <= s)) by (bit_vector)
            requires
                s < 63,
                r < 64,
                elem == (if r == 0 {
                    ((1u64 << (s + 1)) - 1) as u64
                } else {
                    (((((1u64 << (s + 1)) - 1) as u64) >> r) | ((((1u64 << (s + 1)) - 1) as u64)
                        << ((64 - r) as u64))) & 0xffff_ffff_ffff_ffffu64
                }),
        ;
    }
}

/// Decodes the `N:immr:imms` fields of a logical immediate. Returns `None`
/// for reserved encodings; otherwise the 64-bit immediate, truncated to 32
/// bits when `sf` is false.
pub fn decode_bitmask_imm(sf: bool, n: u32, immr: u32, imms: u32) -> (res: Option<u64>)
    ensures
        res is None <==> !bitmask_valid(n, imms),
        res matches Some(v) ==> forall|i: u64|
            i < 64 ==> (#[trigger] ((v >> i) & 1) == 1) == bitmask_bit(sf, n, immr, imms, i as int),
{
    broadcast use vstd::std_specs::bits::axiom_u32_leading_zeros;

    let len = if n != 0 {
        6
    } else {
        let combined = !imms & 0x3f;
        if combined == 0 {
            return None;
        }
        let lz = combined.leading_zeros();
        proof {
            let l = (31 - lz) as u32;
            assert(lz <= 31);
            assert((combined >> l) & 1 != 0);
            assert(combined >> ((32 - lz) as u32) == 0);
            assert(l == highest_bit6(combined)) by (bit_vector)
                requires
                    combined == !imms & 0x3f,
                    combined != 0,
                    l < 32,
                    (combined >> l) & 1 != 0,
                    l < 31 ==> combined >> ((l + 1) as u32) == 0,
            ;
        }
        31 - lz
    };
    assert(len as int == bitmask_len(n, imms) && len <= 6);
    if len == 0 {
        return None;
    }
    let size = 1u32 << len;
    assert(size as nat == bitmask_esize(n, imms) && size <= 64 && size >= 2) by (bit_vector)
        requires
            1 <= len <= 6,
            size == 1u32 << len,
            bitmask_esize(n, imms) == if len == 6 {
                64nat
            } else if len == 5 {
                32nat
            } else if len == 4 {
                16nat
            } else if len == 3 {
                8nat
            } else if len == 2 {
                4nat
            } else {
                2nat
            },
    ;
    let mask = size - 1;
    let s = imms & mask;
    let r = immr & mask;
    assert(s == imms % size && r == immr % size && s <= mask && r <= mask) by (bit_vector)
        requires
            size == 2 || size == 4 || size == 8 || size == 16 || size == 32 || size == 64,
            mask == size - 1,
            s == imms & mask,
            r == immr & mask,
    ;
    if s == mask {
        return None;
    }
    assert(1u64 << ((s + 1) as u64) >= 1) by (bit_vector)
        requires
            s < 63,
    ;
    let welem = (1u64 << ((s + 1) as u64)) - 1;
    assert(size < 64 ==> 1u64 << (size as u64) >= 1) by (bit_vector)
        requires
            size <= 64,
    ;
    let elem_mask = if size >= 64 {
        u64::MAX
    } else {
        (1u64 << (size as u64)) - 1
    };
    let elem = if r == 0 {
        welem
    } else {
        ((welem >> (r as u64)) | (welem << ((size - r) as u64))) & elem_mask
    };
    let mut imm = elem;
    let mut sz = size;
    while sz < 64
        invariant
            sz == 2 || sz == 4 || sz == 8 || sz == 16 || sz == 32 || sz == 64,
            replicate(imm, sz as u64) == replicate(elem, size as u64),
        decreases 64 - sz,
    {
        assert(sz << 1u32 == 2 * sz) by (bit_vector)
            requires
                sz < 64,
        ;
        imm |= imm << (sz as u64);
        sz <<= 1;
    }
    proof {
        lemma_bitmask_bits(size as u64, s as u64, r as u64, elem, imm);
    }
    if !sf {
        let full = imm;
        imm &= 0xffff_ffff;
        assert(forall|i: u64| i < 64 ==> #[trigger] ((imm >> i) & 1) == (if i < 32 {
            (full >> i) & 1
        } else {
            0
        })) by (bit_vector)
            requires
                imm == full & 0xffff_ffff,
        ;
    }
    Some(imm)
}

/// The double-precision bit pattern `a:NOT(b):bbbbbbbb:cdefgh:0^48` of the
/// 8-bit FMOV immediate `abcdefgh`.
pub open spec fn vfp64_bits(imm8: u64) -> u64 {
    (if (imm8 >> 7u64) & 1 == 1 { 0x8000_0000_0000_0000u64 } else { 0u64 })
        | (if (imm8 >> 6u64) & 1 == 1 { 0x3fc0_0000_0000_0000u64 } else { 0x4000_0000_0000_0000u64 })
        | ((imm8 & 0x3f) << 48u64)
}

/// The single-precision bit pattern `a:NOT(b):bbbbb:cdefgh:0^19` of the
/// 8-bit FMOV immediate `abcdefgh`.
pub open spec fn vfp32_bits(imm8: u64) -> u32 {
    (if (imm8 >> 7u64) & 1 == 1 { 0x8000_0000u32 } else { 0u32 })
        | (if (imm8 >> 6u64) & 1 == 1 { 0x3e00_0000u32 } else { 0x4000_0000u32 })
        | (((imm8 & 0x3f) as u32) << 19u32)
}

/// Expands an 8-bit FMOV immediate `abcdefgh` to its double-precision bit
/// pattern. Bits of `imm8` above bit 7 are ignored.
pub fn vfp_expand_imm64(imm8: u64) -> (r: u64)
    ensures
        r == vfp64_bits(imm8),
{
    let a = (imm8 >> 7) & 1;
    let b = (imm8 >> 6) & 1;
    let b_rep = if b != 0 { 0xffu64 } else { 0 };
    let payload = imm8 & 0x3f;
    let r = (a << 63) | ((b ^ 1) << 62) | ((b_rep & 0xff) << 54) | (payload << 48);
    assert(r == (if (imm8 >> 7u64) & 1 == 1 { 0x8000_0000_0000_0000u64 } else { 0u64 })
        | (if (imm8 >> 6u64) & 1 == 1 { 0x3fc0_0000_0000_0000u64 } else { 0x4000_0000_0000_0000u64 })
        | ((imm8 & 0x3f) << 48u64)) by (bit_vector)
        requires
            a == (imm8 >> 7) & 1,
            b == (imm8 >> 6) & 1,
            b_rep == if b != 0 { 0xffu64 } else { 0 },
            payload == imm8 & 0x3f,
            r == (a << 63) | ((b ^ 1) << 62) | ((b_rep & 0xff) << 54) | (payload << 48),
    ;
    r
}

/// Expands an 8-bit FMOV immediate `abcdefgh` to its single-precision bit
/// pattern. Bits of `imm8` above bit 7 are ignored.
pub fn vfp_expand_imm32(imm8: u64) -> (r: u32)
    ensures
        r == vfp32_bits(imm8),
{
    let a = ((imm8 >> 7) & 1) as u32;
    let b = ((imm8 >> 6) & 1) as u32;
    let b_rep = if b != 0 { 0x1fu32 } else { 0 };
    let payload = (imm8 & 0x3f) as u32;
    let r = (a << 31) | ((b ^ 1) << 30) | (b_rep << 25) | (payload << 19);
    assert(r == (if (imm8 >> 7u64) & 1 == 1 { 0x8000_0000u32 } else { 0u32 })
        | (if (imm8 >> 6u64) & 1 == 1 { 0x3e00_0000u32 } else { 0x4000_0000u32 })
        | (((imm8 & 0x3f) as u32) << 19u32)) by (bit_vector)
        requires
            a == ((imm8 >> 7) & 1) as u32,
            b == ((imm8 >> 6) & 1) as u32,
            b_rep == if b != 0 { 0x1fu32 } else { 0 },
            payload == (imm8 & 0x3f) as u32,
            r == (a << 31) | ((b ^ 1) << 30) | (b_rep << 25) | (payload << 19),
    ;
    r
}

/// A 32-bit value in both words.
pub open spec fn rep32(v: u64) -> u64 {
    v | (v << 32u64)
}

/// A 16-bit value in all four halfwords.
pub open spec fn rep16(v: u64) -> u64 {
    v | (v << 16u64) | (v << 32u64) | (v << 48u64)
}

/// The 64-bit byte mask of `imm8`: byte `i` is all ones when bit `i` of
/// `imm8` is set, and zero otherwise.
pub open spec fn byte_mask(imm8: u64) -> u64 {
    (if bit(imm8, 0) { 0xffu64 } else { 0u64 }) | (if bit(imm8, 1) { 0xff00u64 } else { 0u64 }) | (
    if bit(imm8, 2) {
        0xff_0000u64
    } else {
        0u64
    }) | (if bit(imm8, 3) { 0xff00_0000u64 } else { 0u64 }) | (if bit(imm8, 4) {
        0xff_0000_0000u64
    } else {
        0u64
    }) | (if bit(imm8, 5) { 0xff00_0000_0000u64 } else { 0u64 }) | (if bit(imm8, 6) {
        0xff_0000_0000_0000u64
    } else {
        0u64
    }) | (if bit(imm8, 7) { 0xff00_0000_0000_0000u64 } else { 0u64 })
}

/// The `op` field of an AdvSIMD modified-immediate instruction.
pub open spec fn movi_op(insn: u32) -> u32 {
    (insn >> 29u32) & 1
}

/// The `cmode` field of an AdvSIMD modified-immediate instruction.
pub open spec fn movi_cmode(insn: u32) -> u32 {
    (insn >> 12u32) & 0xf
}

/// The 8-bit immediate `abc:defgh` of an AdvSIMD modified-immediate
/// instruction.
pub open spec fn movi_imm8(insn: u32) -> u64 {
    ((((insn >> 16u32) & 0x7) << 5u32) | ((insn >> 5u32) & 0x1f)) as u64
}

/// The 64-bit element that `op`, `cmode` and `imm8` describe: a shifted
/// byte in each word (`cmode` 0xx), in each halfword (10x), a byte shifted
/// in ones in each word (110), a byte in every byte, a byte mask, or an
/// FMOV constant in each word or in the doubleword (111).
pub open spec fn simd_imm_element(op: u32, cmode: u32, imm8: u64) -> u64 {
    let k = cmode >> 1u32;
    if k == 0 {
        rep32(imm8)
    } else if k == 1 {
        rep32(imm8 << 8u64)
    } else if k == 2 {
        rep32(imm8 << 16u64)
    } else if k == 3 {
        rep32(imm8 << 24u64)
    } else if k == 4 {
        rep16(imm8)
    } else if k == 5 {
        rep16(imm8 << 8u64)
    } else if k == 6 {
        rep32(
            if cmode & 1 == 0 {
                (imm8 << 8u64) | 0xff
            } else {
                (imm8 << 16u64) | 0xffff
            },
        )
    } else if cmode & 1 == 0 && op == 0 {
        (imm8 * 0x0101_0101_0101_0101) as u64
    } else if cmode & 1 == 0 {
        byte_mask(imm8)
    } else if op == 0 {
        rep32(vfp32_bits(imm8) as u64)
    } else {
        vfp64_bits(imm8)
    }
}

/// The 64-bit value an AdvSIMD modified-immediate instruction writes to each
/// doubleword of its destination: the element, inverted for MVNI (`op` set
/// and `cmode` below 0b1110).
pub open spec fn simd_modified_imm(insn: u32) -> u64 {
    let e = simd_imm_element(movi_op(insn), movi_cmode(insn), movi_imm8(insn));
    if movi_op(insn) == 1 && movi_cmode(insn) >> 1u32 < 7 {
        !e
    } else {
        e
    }
}

/// Each byte of the byte mask of `imm8` is all ones or zero by the
/// corresponding bit, and `imm8 & (1 << i)` tests bit `i`.
proof fn lemma_byte_mask(imm8: u64, i: u64)
    by (bit_vector)
    requires
        i < 8,
    ensures
        lane8(byte_mask(imm8), i) == if bit(imm8, i) {
            0xffu64
        } else {
            0u64
        },
        (imm8 & (1u64 << i) != 0) == bit(imm8, i),
{
}

/// The byte mask of `imm8`, built byte by byte.
fn movi_byte_mask(imm8: u64) -> (r: u64)
    ensures
        r == byte_mask(imm8),
{
    let ghost want = |j: u64| if bit(imm8, j) { 0xffu64 } else { 0u64 };
    let mut v: u64 = 0;
    proof {
        lemma_lanes8_start(want);
    }
    let mut i: u64 = 0;
    while i < 8
        invariant
            i <= 8,
            lanes8_upto(v, i, want),
            forall|j: u64| #[trigger] want(j) == if bit(imm8, j) { 0xffu64 } else { 0u64 },
        decreases 8 - i,
    {
        proof {
            lemma_byte_mask(imm8, i);
        }
        if imm8 & (1u64 << i) != 0 {
            proof {
                lemma_lane8_next(v, 0xff, i, want);
            }
            v |= 0xffu64 << (i * 8);
        } else {
            proof {
                lemma_lane8_skip(v, i, want);
            }
        }
        i += 1;
    }
    proof {
        assert forall|j: u64| j < 8 implies lane8(v, j) == lane8(byte_mask(imm8), j) by {
            lemma_byte_mask(imm8, j);
        }
        law_lanes8_determine(v, byte_mask(imm8));
    }
    v
}

/// Decodes the immediate of an AdvSIMD modified-immediate instruction
/// (MOVI, MVNI, ORR, BIC, FMOV vector) to the 64-bit value it stands for in
/// each doubleword of the destination.
pub fn neon_movi_imm(insn: u32) -> (r: u64)
    ensures
        r == simd_modified_imm(insn),
{
    let op = (insn >> 29) & 1;
    let cmode = (insn >> 12) & 0xf;
    let abc = (insn >> 16) & 0x7;
    let defgh = (insn >> 5) & 0x1f;
    let imm8 = ((abc << 5) | defgh) as u64;
    assert(imm8 < 256) by (bit_vector)
        requires
            imm8 == ((((insn >> 16u32) & 0x7) << 5u32) | ((insn >> 5u32) & 0x1f)) as u64,
    ;
    let k = cmode >> 1;
    let elem64 = if k == 0 {
        let v = imm8;
        v | (v << 32)
    } else if k == 1 {
        let v = imm8 << 8;
        v | (v << 32)
    } else if k == 2 {
        let v = imm8 << 16;
        v | (v << 32)
    } else if k == 3 {
        let v = imm8 << 24;
        v | (v << 32)
    } else if k == 4 {
        let v = imm8;
        v | (v << 16) | (v << 32) | (v << 48)
    } else if k == 5 {
        let v = imm8 << 8;
        v | (v << 16) | (v << 32) | (v << 48)
    } else if k == 6 {
        let v = if cmode & 1 == 0 {
            (imm8 << 8) | 0xff
        } else {
            (imm8 << 16) | 0xffff
        };
        v | (v << 32)
    } else if cmode & 1 == 0 && op == 0 {
        assert(imm8 * 0x0101_0101_0101_0101 <= 0xffff_ffff_ffff_ffff) by (nonlinear_arith)
            requires
                imm8 < 256,
        ;
        imm8 * 0x0101_0101_0101_0101u64
    } else if cmode & 1 == 0 {
        movi_byte_mask(imm8)
    } else if op == 0 {
        let val32 = vfp_expand_imm32(imm8) as u64;
        val32 | (val32 << 32)
    } else {
        vfp_expand_imm64(imm8)
    };
    if op == 1 && k < 7 {
        !elem64
    } else {
        elem64
    }
}

/// Access described by the `size` and `opc` fields of a SIMD&FP register
/// load/store: `(log2 of the byte count, is a 128-bit Q access, is a load)`.
pub open spec fn fp_ldst_size_spec(size: u32, opc: u32) -> Option<(u32, bool, bool)> {
    if opc <= 1 {
        if size == 0 {
            Some((0u32, false, opc == 1))
        } else if size <= 3 {
            Some((size, false, opc == 1))
        } else {
            None
        }
    } else if size == 0 && opc <= 3 {
        Some((4u32, true, opc == 3))
    } else {
        None
    }
}

/// Decodes the size/opc fields of a SIMD&FP load/store (STR/LDR B, H, S, D, Q).
pub fn fp_ldst_size(size: u32, opc: u32) -> (r: Option<(u32, bool, bool)>)
    ensures
        r == fp_ldst_size_spec(size, opc),
{
    match (size, opc) {
        (0b00, 0b00) => Some((0, false, false)),
        (0b00, 0b01) => Some((0, false, true)),
        (0b00, 0b10) => Some((4, true, false)),
        (0b00, 0b11) => Some((4, true, true)),
        (0b01, 0b00) => Some((1, false, false)),
        (0b01, 0b01) => Some((1, false, true)),
        (0b10, 0b00) => Some((2, false, false)),
        (0b10, 0b01) => Some((2, false, true)),
        (0b11, 0b00) => Some((3, false, false)),
        (0b11, 0b01) => Some((3, false, true)),
        _ => None,
    }
}

} // verus!
