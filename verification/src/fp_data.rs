//! How the SIMD&FP data-processing group of the A64 encoding is handed out:
//! to which decoder each instruction goes, and the operation where the
//! group carries it out itself.

use vstd::prelude::*;

use crate::fp_decode::{decode_fp_scalar, fp_scalar_spec, FpHelper, FpScalarOp};

verus! {

/// How the translator handles an instruction of the SIMD&FP data-processing
/// space: the decoder it hands the instruction to, or the operation itself
/// where it carries it out directly.
#[derive(Clone, Copy, Debug, PartialEq, Eq, Structural)]
pub enum FpDataOp {
    DupElement,
    DupGeneral,
    Umov,
    InsGeneral,
    InsElement,
    Tbl,
    /// AdvSIMD modified immediate (see `neon_movi_imm`).
    Movi,
    FmovToGpr,
    FmovImm,
    /// FMADD/FMSUB/FNMADD/FNMSUB: `rd = helper(rn, rm, ra)`.
    Fused { helper: FpHelper, rd: u32, rn: u32, rm: u32, ra: u32 },
    /// A scalar floating-point instruction (see `decode_fp_scalar`).
    Scalar(FpScalarOp),
    Ext,
    /// Vector by indexed element; when that decoder declines the
    /// instruction, `decode_fp_data_rest` gives what comes next.
    IndexedElement,
    /// Scalar two-register miscellaneous: `rd = helper(rn)`.
    ScalarUnary { helper: FpHelper, rd: u32, rn: u32 },
    /// CMEQ Dd, Dn, #0: all ones when `rn` is zero, else zero.
    CmeqZero { rd: u32, rn: u32 },
    Scalar3Same,
    ScalarShiftImm,
    /// FADDP scalar: `rd = helper(low half of rn, high half of rn)`.
    PairAdd { helper: FpHelper, rd: u32, rn: u32 },
    /// ADDP Dd, Vn.2D: `rd = low half + high half` (wrapping).
    AddPair { rd: u32, rn: u32 },
    /// Claimed by this group but not translated: the instruction is refused.
    Refused,
    /// Everything else goes to the three-same/miscellaneous decoder.
    ThreeSameMisc,
}

/// Helper of a fused multiply-add by its `o1` and `o0` bits and precision.
pub open spec fn fused_helper_spec(o1: u32, o0: u32, double: bool) -> Option<FpHelper> {
    match (o1, o0, double) {
        (0u32, 0u32, true) => Some(FpHelper::Fmadd64),
        (0u32, 1u32, true) => Some(FpHelper::Fmsub64),
        (1u32, 0u32, true) => Some(FpHelper::Fnmadd64),
        (1u32, 1u32, true) => Some(FpHelper::Fnmsub64),
        (0u32, 0u32, false) => Some(FpHelper::Fmadd32),
        (0u32, 1u32, false) => Some(FpHelper::Fmsub32),
        (1u32, 0u32, false) => Some(FpHelper::Fnmadd32),
        (1u32, 1u32, false) => Some(FpHelper::Fnmsub32),
        _ => None,
    }
}

fn fused_helper(o1: u32, o0: u32, double: bool) -> (r: Option<FpHelper>)
    ensures
        r == fused_helper_spec(o1, o0, double),
{
    match (o1, o0, double) {
        (0u32, 0u32, true) => Some(FpHelper::Fmadd64),
        (0u32, 1u32, true) => Some(FpHelper::Fmsub64),
        (1u32, 0u32, true) => Some(FpHelper::Fnmadd64),
        (1u32, 1u32, true) => Some(FpHelper::Fnmsub64),
        (0u32, 0u32, false) => Some(FpHelper::Fmadd32),
        (0u32, 1u32, false) => Some(FpHelper::Fmsub32),
        (1u32, 0u32, false) => Some(FpHelper::Fnmadd32),
        (1u32, 1u32, false) => Some(FpHelper::Fnmsub32),
        _ => None,
    }
}

/// A scalar two-register miscellaneous instruction by its `U` bit and
/// opcode; `size64` picks the double-width helper.
pub open spec fn scalar_misc_spec(u: u32, opcode: u32, size64: bool, rd: u32, rn: u32) -> FpDataOp {
    match (u, opcode) {
        (1u32, 0b01000u32) => FpDataOp::ScalarUnary { helper: FpHelper::CmgeScalar, rd, rn },
        (0u32, 0b01000u32) => FpDataOp::ScalarUnary { helper: FpHelper::CmgtScalar, rd, rn },
        (1u32, 0b01001u32) => FpDataOp::ScalarUnary { helper: FpHelper::CmleScalar, rd, rn },
        (0u32, 0b01001u32) => FpDataOp::CmeqZero { rd, rn },
        (1u32, 0b11101u32) => FpDataOp::ScalarUnary { helper: if size64 { FpHelper::UcvtfDX } else { FpHelper::UcvtfSS }, rd, rn },
        (0u32, 0b01100u32) => FpDataOp::ScalarUnary { helper: FpHelper::FcmgtZeroScalar, rd, rn },
        (0u32, 0b11101u32) => FpDataOp::ScalarUnary { helper: if size64 { FpHelper::ScvtfDD } else { FpHelper::ScvtfSS }, rd, rn },
        (0u32, 0b11011u32) => FpDataOp::ScalarUnary { helper: if size64 { FpHelper::FcvtzsXD } else { FpHelper::FcvtzsWS }, rd, rn },
        (1u32, 0b11011u32) => FpDataOp::ScalarUnary { helper: if size64 { FpHelper::FcvtzuXD } else { FpHelper::FcvtzuWS }, rd, rn },
        _ => FpDataOp::Refused,
    }
}

fn scalar_misc(u: u32, opcode: u32, size64: bool, rd: u32, rn: u32) -> (r: FpDataOp)
    ensures
        r == scalar_misc_spec(u, opcode, size64, rd, rn),
{
    match (u, opcode) {
        (1u32, 0b01000u32) => FpDataOp::ScalarUnary { helper: FpHelper::CmgeScalar, rd, rn },
        (0u32, 0b01000u32) => FpDataOp::ScalarUnary { helper: FpHelper::CmgtScalar, rd, rn },
        (1u32, 0b01001u32) => FpDataOp::ScalarUnary { helper: FpHelper::CmleScalar, rd, rn },
        (0u32, 0b01001u32) => FpDataOp::CmeqZero { rd, rn },
        (1u32, 0b11101u32) => FpDataOp::ScalarUnary { helper: if size64 { FpHelper::UcvtfDX } else { FpHelper::UcvtfSS }, rd, rn },
        (0u32, 0b01100u32) => FpDataOp::ScalarUnary { helper: FpHelper::FcmgtZeroScalar, rd, rn },
        (0u32, 0b11101u32) => FpDataOp::ScalarUnary { helper: if size64 { FpHelper::ScvtfDD } else { FpHelper::ScvtfSS }, rd, rn },
        (0u32, 0b11011u32) => FpDataOp::ScalarUnary { helper: if size64 { FpHelper::FcvtzsXD } else { FpHelper::FcvtzsWS }, rd, rn },
        (1u32, 0b11011u32) => FpDataOp::ScalarUnary { helper: if size64 { FpHelper::FcvtzuXD } else { FpHelper::FcvtzuWS }, rd, rn },
        _ => FpDataOp::Refused,
    }
}

/// How the SIMD&FP data-processing group handles `insn`, tried in the
/// translator's order.
pub open spec fn fp_data_spec(insn: u32) -> FpDataOp {
    let rd = insn & 0x1f;
    let rn = (insn >> 5u32) & 0x1f;
    if (insn & 0xbfe0_fc00) == 0x0e00_0400 {
        FpDataOp::DupElement
    } else if (insn & 0xbfe0_fc00) == 0x0e00_0c00 {
        FpDataOp::DupGeneral
    } else if (insn & 0xbfe0_fc00) == 0x0e00_3c00 {
        FpDataOp::Umov
    } else if (insn & 0xffe0_fc00) == 0x4e00_1c00 {
        FpDataOp::InsGeneral
    } else if (insn & 0xffe0_8400) == 0x6e00_0400 {
        FpDataOp::InsElement
    } else if (insn & 0xbfe0_0c00) == 0x0e00_0000 {
        FpDataOp::Tbl
    } else if (insn & 0x9ff8_0400) == 0x0f00_0400 {
        FpDataOp::Movi
    } else if (insn & 0xffff_fc00) == 0x9e66_0000 {
        FpDataOp::FmovToGpr
    } else if (insn & 0xffe0_1fe0) == 0x1e60_1000 {
        FpDataOp::FmovImm
    } else if (insn & 0xffe0_1fe0) == 0x1e20_1000 {
        FpDataOp::FmovImm
    } else if insn >> 24u32 == 0x1f {
        match fused_helper_spec((insn >> 21u32) & 1, (insn >> 15u32) & 1, (insn >> 22u32) & 1 != 0) {
            Some(helper) => FpDataOp::Fused { helper, rd, rn, rm: (insn >> 16u32) & 0x1f, ra: (insn >> 10u32) & 0x1f },
            None => FpDataOp::Refused,
        }
    } else if (insn >> 24u32 == 0x1e || insn >> 24u32 == 0x9e) && fp_scalar_spec(insn).is_some() {
        FpDataOp::Scalar(fp_scalar_spec(insn).unwrap())
    } else if (insn & 0xbfe0_8400) == 0x2e00_0000 {
        FpDataOp::Ext
    } else if (insn & 0x9f00_0400) == 0x0f00_0000 {
        FpDataOp::IndexedElement
    } else {
        fp_data_rest_spec(insn)
    }
}

/// Decodes an instruction of the SIMD&FP data-processing group.
pub fn decode_fp_data(insn: u32) -> (r: FpDataOp)
    ensures
        r == fp_data_spec(insn),
        fp_data_facts(insn, r),
{
    proof {
        law_fp_data(insn);
    }
    let rd = insn & 0x1f;
    let rn = (insn >> 5u32) & 0x1f;
    if (insn & 0xbfe0_fc00) == 0x0e00_0400 {
        FpDataOp::DupElement
    } else if (insn & 0xbfe0_fc00) == 0x0e00_0c00 {
        FpDataOp::DupGeneral
    } else if (insn & 0xbfe0_fc00) == 0x0e00_3c00 {
        FpDataOp::Umov
    } else if (insn & 0xffe0_fc00) == 0x4e00_1c00 {
        FpDataOp::InsGeneral
    } else if (insn & 0xffe0_8400) == 0x6e00_0400 {
        FpDataOp::InsElement
    } else if (insn & 0xbfe0_0c00) == 0x0e00_0000 {
        FpDataOp::Tbl
    } else if (insn & 0x9ff8_0400) == 0x0f00_0400 {
        FpDataOp::Movi
    } else if (insn & 0xffff_fc00) == 0x9e66_0000 {
        FpDataOp::FmovToGpr
    } else if (insn & 0xffe0_1fe0) == 0x1e60_1000 {
        FpDataOp::FmovImm
    } else if (insn & 0xffe0_1fe0) == 0x1e20_1000 {
        FpDataOp::FmovImm
    } else if insn >> 24u32 == 0x1f {
        match fused_helper((insn >> 21u32) & 1, (insn >> 15u32) & 1, (insn >> 22u32) & 1 != 0) {
            Some(helper) => FpDataOp::Fused { helper, rd, rn, rm: (insn >> 16u32) & 0x1f, ra: (insn >> 10u32) & 0x1f },
            None => FpDataOp::Refused,
        }
    } else if (insn >> 24u32 == 0x1e || insn >> 24u32 == 0x9e) && decode_fp_scalar(insn).is_some() {
        FpDataOp::Scalar(decode_fp_scalar(insn).unwrap())
    } else if (insn & 0xbfe0_8400) == 0x2e00_0000 {
        FpDataOp::Ext
    } else if (insn & 0x9f00_0400) == 0x0f00_0000 {
        FpDataOp::IndexedElement
    } else {
        decode_fp_data_rest(insn)
    }
}

/// What the group does with `insn` after the indexed-element decoder.
pub open spec fn fp_data_rest_spec(insn: u32) -> FpDataOp {
    let rd = insn & 0x1f;
    let rn = (insn >> 5u32) & 0x1f;
    if (insn & 0xdf3e_0c00) == 0x5e20_0800 {
        scalar_misc_spec((insn >> 29u32) & 1, (insn >> 12u32) & 0x1f, (insn >> 22u32) & 3 == 3, rd, rn)
    } else if (insn & 0xdf20_0400) == 0x5e20_0400 {
        FpDataOp::Scalar3Same
    } else if (insn & 0xdf80_0400) == 0x5f00_0400 {
        FpDataOp::ScalarShiftImm
    } else if (insn & 0xff3e_0c00) == 0x7e30_0800 {
        FpDataOp::PairAdd { helper: if (insn >> 22u32) & 1 == 1 { FpHelper::Fadd64 } else { FpHelper::Fadd32 }, rd, rn }
    } else if (insn & 0xff3f_fc00) == 0x5e31_b800 {
        if (insn >> 22u32) & 3 == 3 {
            FpDataOp::AddPair { rd, rn }
        } else {
            FpDataOp::Refused
        }
    } else {
        FpDataOp::ThreeSameMisc
    }
}

/// Decodes `insn` as the group does once the indexed-element decoder has
/// declined it.
pub fn decode_fp_data_rest(insn: u32) -> (r: FpDataOp)
    ensures
        r == fp_data_rest_spec(insn),
{
    let rd = insn & 0x1f;
    let rn = (insn >> 5u32) & 0x1f;
    if (insn & 0xdf3e_0c00) == 0x5e20_0800 {
        scalar_misc((insn >> 29u32) & 1, (insn >> 12u32) & 0x1f, (insn >> 22u32) & 3 == 3, rd, rn)
    } else if (insn & 0xdf20_0400) == 0x5e20_0400 {
        FpDataOp::Scalar3Same
    } else if (insn & 0xdf80_0400) == 0x5f00_0400 {
        FpDataOp::ScalarShiftImm
    } else if (insn & 0xff3e_0c00) == 0x7e30_0800 {
        FpDataOp::PairAdd { helper: if (insn >> 22u32) & 1 == 1 { FpHelper::Fadd64 } else { FpHelper::Fadd32 }, rd, rn }
    } else if (insn & 0xff3f_fc00) == 0x5e31_b800 {
        if (insn >> 22u32) & 3 == 3 {
            FpDataOp::AddPair { rd, rn }
        } else {
            FpDataOp::Refused
        }
    } else {
        FpDataOp::ThreeSameMisc
    }
}

/// What the A64 encoding fixes for the fused multiply-add group (top byte
/// 0x1f), stated on the fields: `o1` (bit 21) and `o0` (bit 15) pick FMADD
/// (0, 0), FMSUB (0, 1), FNMADD (1, 0) or FNMSUB (1, 1), in double precision
/// when bit 22 is set, on registers Rd, Rn, Rm and Ra (bits 10-14).
pub open spec fn fp_data_facts(insn: u32, r: FpDataOp) -> bool {
    let double = (insn >> 22u32) & 1 != 0;
    let o1 = (insn >> 21u32) & 1;
    let o0 = (insn >> 15u32) & 1;
    insn >> 24u32 == 0x1f ==> r == if o1 == 0 && o0 == 0 {
        FpDataOp::Fused {
            helper: if double { FpHelper::Fmadd64 } else { FpHelper::Fmadd32 },
            rd: insn & 0x1f,
            rn: (insn >> 5u32) & 0x1f,
            rm: (insn >> 16u32) & 0x1f,
            ra: (insn >> 10u32) & 0x1f,
        }
    } else if o1 == 0 {
        FpDataOp::Fused {
            helper: if double { FpHelper::Fmsub64 } else { FpHelper::Fmsub32 },
            rd: insn & 0x1f,
            rn: (insn >> 5u32) & 0x1f,
            rm: (insn >> 16u32) & 0x1f,
            ra: (insn >> 10u32) & 0x1f,
        }
    } else if o0 == 0 {
        FpDataOp::Fused {
            helper: if double { FpHelper::Fnmadd64 } else { FpHelper::Fnmadd32 },
            rd: insn & 0x1f,
            rn: (insn >> 5u32) & 0x1f,
            rm: (insn >> 16u32) & 0x1f,
            ra: (insn >> 10u32) & 0x1f,
        }
    } else {
        FpDataOp::Fused {
            helper: if double { FpHelper::Fnmsub64 } else { FpHelper::Fnmsub32 },
            rd: insn & 0x1f,
            rn: (insn >> 5u32) & 0x1f,
            rm: (insn >> 16u32) & 0x1f,
            ra: (insn >> 10u32) & 0x1f,
        }
    }
}

/// Every fused multiply-add decodes by the A64 encoding (see
/// `fp_data_facts`).
pub proof fn law_fp_data(insn: u32)
    ensures
        fp_data_facts(insn, fp_data_spec(insn)),
{
    assert(insn >> 24u32 == 0x1f ==> {
        &&& (insn & 0xbfe0_fc00) != 0x0e00_0400 && (insn & 0xbfe0_fc00) != 0x0e00_0c00
        &&& (insn & 0xbfe0_fc00) != 0x0e00_3c00 && (insn & 0xffe0_fc00) != 0x4e00_1c00
        &&& (insn & 0xffe0_8400) != 0x6e00_0400 && (insn & 0xbfe0_0c00) != 0x0e00_0000
        &&& (insn & 0x9ff8_0400) != 0x0f00_0400 && (insn & 0xffff_fc00) != 0x9e66_0000
        &&& (insn & 0xffe0_1fe0) != 0x1e60_1000 && (insn & 0xffe0_1fe0) != 0x1e20_1000
        &&& ((insn >> 21u32) & 1 == 0 || (insn >> 21u32) & 1 == 1)
        &&& ((insn >> 15u32) & 1 == 0 || (insn >> 15u32) & 1 == 1)
    }) by (bit_vector);
}

} // verus!
