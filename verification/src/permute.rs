//! Decoding of the AdvSIMD permute instructions (UZP1/UZP2/ZIP1/ZIP2) into
//! how each 64-bit half of the destination is computed from the halves of
//! the two sources.

use vstd::prelude::*;

use crate::lanes::{hi32, lanes16_upto, lanes8_upto, lo32};
use crate::neon::{
    helper_uzp1_16, helper_uzp1_32, helper_uzp1_8, helper_uzp2_16, helper_uzp2_32, helper_uzp2_8,
    helper_zip1_16, helper_zip1_8, helper_zip2_16, helper_zip2_8, uzp1_16_lanes, uzp1_8_lanes,
    uzp2_16_lanes, uzp2_8_lanes, zip1_16_lanes, zip1_8_lanes, zip2_16_lanes, zip2_8_lanes,
};

verus! {

/// A 64-bit half of a source register: of `rn` or `rm`, low or high.
#[derive(Clone, Copy, Debug, PartialEq, Eq, Structural)]
pub enum Half {
    NLo,
    NHi,
    MLo,
    MHi,
}

/// How two source halves combine into a destination half. The UZP and ZIP
/// variants are the verified helpers of `crate::neon` of the same name
/// (`Uzp1B` is `helper_uzp1_8`, `Zip2H` is `helper_zip2_16`, `Uzp2S` is
/// `helper_uzp2_32`, and so on); `LowWords` puts the low word of `a` below
/// the low word of `b`, `HighWords` the high word of `a` below the high
/// word of `b`.
#[derive(Clone, Copy, Debug, PartialEq, Eq, Structural)]
pub enum PermOp {
    Uzp1B,
    Uzp1H,
    Uzp1S,
    Uzp2B,
    Uzp2H,
    Uzp2S,
    Zip1B,
    Zip1H,
    Zip2B,
    Zip2H,
    LowWords,
    HighWords,
}

/// One destination half: `op` applied to the halves `a` and `b`.
#[derive(Clone, Copy, Debug, PartialEq, Eq, Structural)]
pub struct PermHalf {
    pub op: PermOp,
    pub a: Half,
    pub b: Half,
}

/// A permute instruction: the low half of `rd` is `lo`; its high half is
/// `hi`, or zero when `hi` is `None`.
#[derive(Clone, Copy, Debug, PartialEq, Eq, Structural)]
pub struct NeonPermutePlan {
    pub rd: u32,
    pub rn: u32,
    pub rm: u32,
    pub lo: PermHalf,
    pub hi: Option<PermHalf>,
}

/// The plan of a permute instruction (`0 Q 001110 size 0 Rm 0 opcode 10 Rn
/// Rd`), or `None` for an opcode and size the translator does not handle.
pub open spec fn neon_permute_spec(insn: u32) -> Option<NeonPermutePlan> {
    let q = (insn >> 30u32) & 1;
    let size = (insn >> 22u32) & 3;
    let rm = (insn >> 16u32) & 0x1f;
    let opcode = (insn >> 12u32) & 7;
    let rn = (insn >> 5u32) & 0x1f;
    let rd = insn & 0x1f;
    if opcode == 1 && size == 0 {
        if q == 0 {
            Some(NeonPermutePlan { rd, rn, rm, lo: PermHalf { op: PermOp::Uzp1B, a: Half::NLo, b: Half::MLo }, hi: None })
        } else {
            Some(NeonPermutePlan { rd, rn, rm, lo: PermHalf { op: PermOp::Uzp1B, a: Half::NLo, b: Half::NHi }, hi: Some(PermHalf { op: PermOp::Uzp1B, a: Half::MLo, b: Half::MHi }) })
        }
    } else if opcode == 1 && size == 1 {
        if q == 0 {
            Some(NeonPermutePlan { rd, rn, rm, lo: PermHalf { op: PermOp::Uzp1H, a: Half::NLo, b: Half::MLo }, hi: None })
        } else {
            Some(NeonPermutePlan { rd, rn, rm, lo: PermHalf { op: PermOp::Uzp1H, a: Half::NLo, b: Half::NHi }, hi: Some(PermHalf { op: PermOp::Uzp1H, a: Half::MLo, b: Half::MHi }) })
        }
    } else if opcode == 3 && size == 2 {
        if q != 0 {
            Some(NeonPermutePlan { rd, rn, rm, lo: PermHalf { op: PermOp::LowWords, a: Half::NLo, b: Half::MLo }, hi: Some(PermHalf { op: PermOp::HighWords, a: Half::NLo, b: Half::MLo }) })
        } else {
            Some(NeonPermutePlan { rd, rn, rm, lo: PermHalf { op: PermOp::LowWords, a: Half::NLo, b: Half::MLo }, hi: None })
        }
    } else if opcode == 7 && size == 2 {
        if q == 0 {
            Some(NeonPermutePlan { rd, rn, rm, lo: PermHalf { op: PermOp::HighWords, a: Half::NLo, b: Half::MLo }, hi: None })
        } else {
            Some(NeonPermutePlan { rd, rn, rm, lo: PermHalf { op: PermOp::LowWords, a: Half::NHi, b: Half::MHi }, hi: Some(PermHalf { op: PermOp::HighWords, a: Half::NHi, b: Half::MHi }) })
        }
    } else if opcode == 5 && size == 0 {
        if q == 0 {
            Some(NeonPermutePlan { rd, rn, rm, lo: PermHalf { op: PermOp::Uzp2B, a: Half::NLo, b: Half::MLo }, hi: None })
        } else {
            Some(NeonPermutePlan { rd, rn, rm, lo: PermHalf { op: PermOp::Uzp2B, a: Half::NLo, b: Half::NHi }, hi: Some(PermHalf { op: PermOp::Uzp2B, a: Half::MLo, b: Half::MHi }) })
        }
    } else if opcode == 5 && size == 1 {
        if q == 0 {
            Some(NeonPermutePlan { rd, rn, rm, lo: PermHalf { op: PermOp::Uzp2H, a: Half::NLo, b: Half::MLo }, hi: None })
        } else {
            Some(NeonPermutePlan { rd, rn, rm, lo: PermHalf { op: PermOp::Uzp2H, a: Half::NLo, b: Half::NHi }, hi: Some(PermHalf { op: PermOp::Uzp2H, a: Half::MLo, b: Half::MHi }) })
        }
    } else if opcode == 5 && size == 2 {
        if q == 0 {
            Some(NeonPermutePlan { rd, rn, rm, lo: PermHalf { op: PermOp::Uzp2S, a: Half::NLo, b: Half::MLo }, hi: None })
        } else {
            Some(NeonPermutePlan { rd, rn, rm, lo: PermHalf { op: PermOp::Uzp2S, a: Half::NLo, b: Half::NHi }, hi: Some(PermHalf { op: PermOp::Uzp2S, a: Half::MLo, b: Half::MHi }) })
        }
    } else if opcode == 3 && size == 0 {
        if q != 0 {
            Some(NeonPermutePlan { rd, rn, rm, lo: PermHalf { op: PermOp::Zip1B, a: Half::NLo, b: Half::MLo }, hi: Some(PermHalf { op: PermOp::Zip1B, a: Half::NHi, b: Half::MHi }) })
        } else {
            Some(NeonPermutePlan { rd, rn, rm, lo: PermHalf { op: PermOp::Zip1B, a: Half::NLo, b: Half::MLo }, hi: None })
        }
    } else if opcode == 7 && size == 0 {
        if q != 0 {
            Some(NeonPermutePlan { rd, rn, rm, lo: PermHalf { op: PermOp::Zip2B, a: Half::NLo, b: Half::MLo }, hi: Some(PermHalf { op: PermOp::Zip2B, a: Half::NHi, b: Half::MHi }) })
        } else {
            Some(NeonPermutePlan { rd, rn, rm, lo: PermHalf { op: PermOp::Zip2B, a: Half::NLo, b: Half::MLo }, hi: None })
        }
    } else if opcode == 3 && size == 1 {
        if q != 0 {
            Some(NeonPermutePlan { rd, rn, rm, lo: PermHalf { op: PermOp::Zip1H, a: Half::NLo, b: Half::MLo }, hi: Some(PermHalf { op: PermOp::Zip1H, a: Half::NHi, b: Half::MHi }) })
        } else {
            Some(NeonPermutePlan { rd, rn, rm, lo: PermHalf { op: PermOp::Zip1H, a: Half::NLo, b: Half::MLo }, hi: None })
        }
    } else if opcode == 7 && size == 1 {
        if q != 0 {
            Some(NeonPermutePlan { rd, rn, rm, lo: PermHalf { op: PermOp::Zip2H, a: Half::NLo, b: Half::MLo }, hi: Some(PermHalf { op: PermOp::Zip2H, a: Half::NHi, b: Half::MHi }) })
        } else {
            Some(NeonPermutePlan { rd, rn, rm, lo: PermHalf { op: PermOp::Zip2H, a: Half::NLo, b: Half::MLo }, hi: None })
        }
    } else if opcode == 1 && size == 2 {
        if q == 0 {
            Some(NeonPermutePlan { rd, rn, rm, lo: PermHalf { op: PermOp::Uzp1S, a: Half::NLo, b: Half::MLo }, hi: None })
        } else {
            Some(NeonPermutePlan { rd, rn, rm, lo: PermHalf { op: PermOp::Uzp1S, a: Half::NLo, b: Half::NHi }, hi: Some(PermHalf { op: PermOp::Uzp1S, a: Half::MLo, b: Half::MHi }) })
        }
    } else {
        None
    }
}

/// Decodes a permute instruction.
pub fn decode_neon_permute(insn: u32) -> (r: Option<NeonPermutePlan>)
    ensures
        r == neon_permute_spec(insn),
        permute_facts(insn, r),
{
    proof {
        law_permute(insn);
    }
    let q = (insn >> 30u32) & 1;
    let size = (insn >> 22u32) & 3;
    let rm = (insn >> 16u32) & 0x1f;
    let opcode = (insn >> 12u32) & 7;
    let rn = (insn >> 5u32) & 0x1f;
    let rd = insn & 0x1f;
    if opcode == 1 && size == 0 {
        if q == 0 {
            Some(NeonPermutePlan { rd, rn, rm, lo: PermHalf { op: PermOp::Uzp1B, a: Half::NLo, b: Half::MLo }, hi: None })
        } else {
            Some(NeonPermutePlan { rd, rn, rm, lo: PermHalf { op: PermOp::Uzp1B, a: Half::NLo, b: Half::NHi }, hi: Some(PermHalf { op: PermOp::Uzp1B, a: Half::MLo, b: Half::MHi }) })
        }
    } else if opcode == 1 && size == 1 {
        if q == 0 {
            Some(NeonPermutePlan { rd, rn, rm, lo: PermHalf { op: PermOp::Uzp1H, a: Half::NLo, b: Half::MLo }, hi: None })
        } else {
            Some(NeonPermutePlan { rd, rn, rm, lo: PermHalf { op: PermOp::Uzp1H, a: Half::NLo, b: Half::NHi }, hi: Some(PermHalf { op: PermOp::Uzp1H, a: Half::MLo, b: Half::MHi }) })
        }
    } else if opcode == 3 && size == 2 {
        if q != 0 {
            Some(NeonPermutePlan { rd, rn, rm, lo: PermHalf { op: PermOp::LowWords, a: Half::NLo, b: Half::MLo }, hi: Some(PermHalf { op: PermOp::HighWords, a: Half::NLo, b: Half::MLo }) })
        } else {
            Some(NeonPermutePlan { rd, rn, rm, lo: PermHalf { op: PermOp::LowWords, a: Half::NLo, b: Half::MLo }, hi: None })
        }
    } else if opcode == 7 && size == 2 {
        if q == 0 {
            Some(NeonPermutePlan { rd, rn, rm, lo: PermHalf { op: PermOp::HighWords, a: Half::NLo, b: Half::MLo }, hi: None })
        } else {
            Some(NeonPermutePlan { rd, rn, rm, lo: PermHalf { op: PermOp::LowWords, a: Half::NHi, b: Half::MHi }, hi: Some(PermHalf { op: PermOp::HighWords, a: Half::NHi, b: Half::MHi }) })
        }
    } else if opcode == 5 && size == 0 {
        if q == 0 {
            Some(NeonPermutePlan { rd, rn, rm, lo: PermHalf { op: PermOp::Uzp2B, a: Half::NLo, b: Half::MLo }, hi: None })
        } else {
            Some(NeonPermutePlan { rd, rn, rm, lo: PermHalf { op: PermOp::Uzp2B, a: Half::NLo, b: Half::NHi }, hi: Some(PermHalf { op: PermOp::Uzp2B, a: Half::MLo, b: Half::MHi }) })
        }
    } else if opcode == 5 && size == 1 {
        if q == 0 {
            Some(NeonPermutePlan { rd, rn, rm, lo: PermHalf { op: PermOp::Uzp2H, a: Half::NLo, b: Half::MLo }, hi: None })
        } else {
            Some(NeonPermutePlan { rd, rn, rm, lo: PermHalf { op: PermOp::Uzp2H, a: Half::NLo, b: Half::NHi }, hi: Some(PermHalf { op: PermOp::Uzp2H, a: Half::MLo, b: Half::MHi }) })
        }
    } else if opcode == 5 && size == 2 {
        if q == 0 {
            Some(NeonPermutePlan { rd, rn, rm, lo: PermHalf { op: PermOp::Uzp2S, a: Half::NLo, b: Half::MLo }, hi: None })
        } else {
            Some(NeonPermutePlan { rd, rn, rm, lo: PermHalf { op: PermOp::Uzp2S, a: Half::NLo, b: Half::NHi }, hi: Some(PermHalf { op: PermOp::Uzp2S, a: Half::MLo, b: Half::MHi }) })
        }
    } else if opcode == 3 && size == 0 {
        if q != 0 {
            Some(NeonPermutePlan { rd, rn, rm, lo: PermHalf { op: PermOp::Zip1B, a: Half::NLo, b: Half::MLo }, hi: Some(PermHalf { op: PermOp::Zip1B, a: Half::NHi, b: Half::MHi }) })
        } else {
            Some(NeonPermutePlan { rd, rn, rm, lo: PermHalf { op: PermOp::Zip1B, a: Half::NLo, b: Half::MLo }, hi: None })
        }
    } else if opcode == 7 && size == 0 {
        if q != 0 {
            Some(NeonPermutePlan { rd, rn, rm, lo: PermHalf { op: PermOp::Zip2B, a: Half::NLo, b: Half::MLo }, hi: Some(PermHalf { op: PermOp::Zip2B, a: Half::NHi, b: Half::MHi }) })
        } else {
            Some(NeonPermutePlan { rd, rn, rm, lo: PermHalf { op: PermOp::Zip2B, a: Half::NLo, b: Half::MLo }, hi: None })
        }
    } else if opcode == 3 && size == 1 {
        if q != 0 {
            Some(NeonPermutePlan { rd, rn, rm, lo: PermHalf { op: PermOp::Zip1H, a: Half::NLo, b: Half::MLo }, hi: Some(PermHalf { op: PermOp::Zip1H, a: Half::NHi, b: Half::MHi }) })
        } else {
            Some(NeonPermutePlan { rd, rn, rm, lo: PermHalf { op: PermOp::Zip1H, a: Half::NLo, b: Half::MLo }, hi: None })
        }
    } else if opcode == 7 && size == 1 {
        if q != 0 {
            Some(NeonPermutePlan { rd, rn, rm, lo: PermHalf { op: PermOp::Zip2H, a: Half::NLo, b: Half::MLo }, hi: Some(PermHalf { op: PermOp::Zip2H, a: Half::NHi, b: Half::MHi }) })
        } else {
            Some(NeonPermutePlan { rd, rn, rm, lo: PermHalf { op: PermOp::Zip2H, a: Half::NLo, b: Half::MLo }, hi: None })
        }
    } else if opcode == 1 && size == 2 {
        if q == 0 {
            Some(NeonPermutePlan { rd, rn, rm, lo: PermHalf { op: PermOp::Uzp1S, a: Half::NLo, b: Half::MLo }, hi: None })
        } else {
            Some(NeonPermutePlan { rd, rn, rm, lo: PermHalf { op: PermOp::Uzp1S, a: Half::NLo, b: Half::NHi }, hi: Some(PermHalf { op: PermOp::Uzp1S, a: Half::MLo, b: Half::MHi }) })
        }
    } else {
        None
    }
}

/// The value of a source half.
pub open spec fn half_value(h: Half, n_lo: u64, n_hi: u64, m_lo: u64, m_hi: u64) -> u64 {
    match h {
        Half::NLo => n_lo,
        Half::NHi => n_hi,
        Half::MLo => m_lo,
        Half::MHi => m_hi,
    }
}

/// `r` is `op` applied to `a` and `b`: the lanes that the helper of `op`
/// promises, or the words that `LowWords` and `HighWords` take.
pub open spec fn perm_result(op: PermOp, a: u64, b: u64, r: u64) -> bool {
    match op {
        PermOp::Uzp1B => lanes8_upto(r, 8, uzp1_8_lanes(a, b)),
        PermOp::Uzp2B => lanes8_upto(r, 8, uzp2_8_lanes(a, b)),
        PermOp::Zip1B => lanes8_upto(r, 8, zip1_8_lanes(a, b)),
        PermOp::Zip2B => lanes8_upto(r, 8, zip2_8_lanes(a, b)),
        PermOp::Uzp1H => lanes16_upto(r, 4, uzp1_16_lanes(a, b)),
        PermOp::Uzp2H => lanes16_upto(r, 4, uzp2_16_lanes(a, b)),
        PermOp::Zip1H => lanes16_upto(r, 4, zip1_16_lanes(a, b)),
        PermOp::Zip2H => lanes16_upto(r, 4, zip2_16_lanes(a, b)),
        PermOp::Uzp1S | PermOp::LowWords => lo32(r) == lo32(a) && hi32(r) == lo32(b),
        PermOp::Uzp2S | PermOp::HighWords => lo32(r) == hi32(a) && hi32(r) == hi32(b),
    }
}

/// Computes one destination half of a permute from the source halves.
pub fn permute_half(h: PermHalf, n_lo: u64, n_hi: u64, m_lo: u64, m_hi: u64) -> (r: u64)
    ensures
        perm_result(
            h.op,
            half_value(h.a, n_lo, n_hi, m_lo, m_hi),
            half_value(h.b, n_lo, n_hi, m_lo, m_hi),
            r,
        ),
{
    let a = match h.a {
        Half::NLo => n_lo,
        Half::NHi => n_hi,
        Half::MLo => m_lo,
        Half::MHi => m_hi,
    };
    let b = match h.b {
        Half::NLo => n_lo,
        Half::NHi => n_hi,
        Half::MLo => m_lo,
        Half::MHi => m_hi,
    };
    match h.op {
        PermOp::Uzp1B => helper_uzp1_8(a, b),
        PermOp::Uzp2B => helper_uzp2_8(a, b),
        PermOp::Zip1B => helper_zip1_8(a, b),
        PermOp::Zip2B => helper_zip2_8(a, b),
        PermOp::Uzp1H => helper_uzp1_16(a, b),
        PermOp::Uzp2H => helper_uzp2_16(a, b),
        PermOp::Zip1H => helper_zip1_16(a, b),
        PermOp::Zip2H => helper_zip2_16(a, b),
        PermOp::Uzp1S | PermOp::LowWords => helper_uzp1_32(a, b),
        PermOp::Uzp2S | PermOp::HighWords => helper_uzp2_32(a, b),
    }
}

/// Carries out a decoded permute on the halves of its sources: the new
/// low and high halves of the destination.
pub fn apply_permute(p: NeonPermutePlan, n_lo: u64, n_hi: u64, m_lo: u64, m_hi: u64) -> (r: (
    u64,
    u64,
))
    ensures
        perm_result(
            p.lo.op,
            half_value(p.lo.a, n_lo, n_hi, m_lo, m_hi),
            half_value(p.lo.b, n_lo, n_hi, m_lo, m_hi),
            r.0,
        ),
        match p.hi {
            Some(h) => perm_result(
                h.op,
                half_value(h.a, n_lo, n_hi, m_lo, m_hi),
                half_value(h.b, n_lo, n_hi, m_lo, m_hi),
                r.1,
            ),
            None => r.1 == 0,
        },
{
    let lo = permute_half(p.lo, n_lo, n_hi, m_lo, m_hi);
    let hi = match p.hi {
        Some(h) => permute_half(h, n_lo, n_hi, m_lo, m_hi),
        None => 0,
    };
    (lo, hi)
}

/// Element width that a combination works on.
pub open spec fn perm_width(op: PermOp) -> nat {
    match op {
        PermOp::Uzp1B | PermOp::Uzp2B | PermOp::Zip1B | PermOp::Zip2B => 8,
        PermOp::Uzp1H | PermOp::Uzp2H | PermOp::Zip1H | PermOp::Zip2H => 16,
        _ => 32,
    }
}

/// What the permute encoding fixes, stated on the fields: opcode 001 is
/// UZP1 (even elements), 101 UZP2 (odd elements), 011 ZIP1 and 111 ZIP2;
/// elements are `8 << size` bits; a 64-bit form (`Q` clear) writes only the
/// low half and zeroes the high half; UZP of a 128-bit form gathers `rn`'s
/// two halves into the low half and `rm`'s into the high half.
pub open spec fn permute_facts(insn: u32, r: Option<NeonPermutePlan>) -> bool {
    let q = (insn >> 30u32) & 1;
    let size = (insn >> 22u32) & 3;
    let opcode = (insn >> 12u32) & 7;
    let width: nat = if size == 0 {
        8
    } else if size == 1 {
        16
    } else {
        32
    };
    r matches Some(p) ==> {
        &&& p.rd == insn & 0x1f && p.rn == (insn >> 5u32) & 0x1f && p.rm == (insn >> 16u32) & 0x1f
        &&& size < 3 && perm_width(p.lo.op) == width
        &&& q == 0 <==> p.hi is None
        &&& opcode == 1 ==> (p.lo.op is Uzp1B || p.lo.op is Uzp1H || p.lo.op is Uzp1S)
        &&& opcode == 5 ==> (p.lo.op is Uzp2B || p.lo.op is Uzp2H || p.lo.op is Uzp2S)
        &&& (opcode == 3 && size < 2) ==> (p.lo.op is Zip1B || p.lo.op is Zip1H)
        &&& (opcode == 7 && size < 2) ==> (p.lo.op is Zip2B || p.lo.op is Zip2H)
        &&& (opcode == 1 || opcode == 5) ==> if q != 0 {
            &&& p.lo.a is NLo && p.lo.b is NHi
            &&& p.hi matches Some(h) && h.op == p.lo.op && h.a is MLo && h.b is MHi
        } else {
            p.lo.a is NLo && p.lo.b is MLo
        }
    }
}

/// Every permute instruction decodes by the encoding (see
/// `permute_facts`).
pub proof fn law_permute(insn: u32)
    ensures
        permute_facts(insn, neon_permute_spec(insn)),
{
}

} // verus!
