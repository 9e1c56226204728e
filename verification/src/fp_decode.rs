//! Decoding of the A64 scalar floating-point instructions and of the
//! scalar SIMD "data processing" group into the operation each one performs:
//! the helper it calls, where it reads its operands and where it writes its
//! result. The helpers themselves work on floating-point values and live
//! outside the verified library; the decoding is the instruction grammar.

use vstd::prelude::*;

verus! {

/// A floating-point helper that an instruction is carried out by; each
/// variant names the helper function of the same name in snake case.
#[derive(Clone, Copy, Debug, PartialEq, Eq, Structural)]
pub enum FpHelper {
    CmgeScalar,
    CmgtScalar,
    CmleScalar,
    Fadd32,
    Fadd64,
    FcmgtZeroScalar,
    FpCompare32,
    FpCompare64,
    FcvtDToS,
    FcvtSToD,
    FcvtasWD,
    FcvtasWS,
    FcvtasXD,
    FcvtasXS,
    FcvtmsWD,
    FcvtmsWS,
    FcvtmsXD,
    FcvtmsXS,
    FcvtpsWD,
    FcvtpsWS,
    FcvtpsXD,
    FcvtpsXS,
    FcvtzsWD,
    FcvtzsWS,
    FcvtzsWSFixed,
    FcvtzsXD,
    FcvtzsXDFixed,
    FcvtzsXS,
    FcvtzuWD,
    FcvtzuWS,
    FcvtzuWSFixed,
    FcvtzuXD,
    FcvtzuXDFixed,
    FcvtzuXS,
    Fdiv32,
    Fdiv64,
    Fmadd32,
    Fmadd64,
    Fmax32,
    Fmax64,
    Fmaxnm32,
    Fmaxnm64,
    Fmin32,
    Fmin64,
    Fminnm32,
    Fminnm64,
    Fmsub32,
    Fmsub64,
    Fmul32,
    Fmul64,
    Fnmadd32,
    Fnmadd64,
    Fnmsub32,
    Fnmsub64,
    Fnmul32,
    Fnmul64,
    FrintaD,
    FrintaS,
    FrintmD,
    FrintmS,
    FrintnD,
    FrintnS,
    FrintpD,
    FrintpS,
    FrintzD,
    FrintzS,
    Fsqrt32,
    Fsqrt64,
    Fsub32,
    Fsub64,
    ScvtfDD,
    ScvtfDW,
    ScvtfDWFixed,
    ScvtfDX,
    ScvtfDXFixed,
    ScvtfSS,
    ScvtfSW,
    ScvtfSWFixed,
    ScvtfSX,
    ScvtfSXFixed,
    UcvtfDW,
    UcvtfDWFixed,
    UcvtfDX,
    UcvtfDXFixed,
    UcvtfSS,
    UcvtfSW,
    UcvtfSWFixed,
    UcvtfSX,
    UcvtfSXFixed,
}

/// Where a scalar operation reads an operand or writes its result: a
/// general-purpose register, the low 64 bits of a vector register (as a
/// destination, the high half is zeroed), or its high 64 bits.
#[derive(Clone, Copy, Debug, PartialEq, Eq, Structural)]
pub enum FpLoc {
    X,
    VLo,
    VHi,
}

/// The operation of a scalar floating-point instruction.
#[derive(Clone, Copy, Debug, PartialEq, Eq, Structural)]
pub enum FpScalarOp {
    /// FCMP: compares `rn` with register `other`, or with zero when there is none, by `FpCompare64`; the result
    /// sets NZCV.
    Compare { rn: u32, other: Option<u32> },
    /// FCCMP: when `cond` holds, NZCV from comparing `rn` with `rm` by
    /// `helper`, otherwise `nzcv`.
    CondCompare { helper: FpHelper, rn: u32, rm: u32, cond: u32, nzcv: u32 },
    /// `rd = helper(rn, rm)` on vector registers.
    Binary { helper: FpHelper, rd: u32, rn: u32, rm: u32 },
    /// `rd = helper(rn)`, with the given source and destination.
    Unary { helper: FpHelper, src: FpLoc, dst: FpLoc, rd: u32, rn: u32 },
    /// `rd = helper(rn, fbits)`: a fixed-point conversion with `fbits`
    /// fraction bits.
    Fixed { helper: FpHelper, src: FpLoc, dst: FpLoc, rd: u32, rn: u32, fbits: u64 },
    /// A plain move, of the low 32 bits only when `low32`.
    Move { src: FpLoc, dst: FpLoc, rd: u32, rn: u32, low32: bool },
    /// FABS: clears the sign bit of a double (`double`) or a single.
    Abs { rd: u32, rn: u32, double: bool },
    /// FNEG: flips the sign bit of a double (`double`) or a single.
    Neg { rd: u32, rn: u32, double: bool },
    /// FCSEL: `rd = if cond holds { rn } else { rm }`.
    Select { rd: u32, rn: u32, rm: u32, cond: u32 },
    /// A fixed-point conversion whose scale field gives no valid fraction
    /// width: the instruction is refused.
    Unsupported,
}

/// Helper of an FP data-processing (two source) instruction by its opcode
/// and precision; opcodes above FNMUL have none.
pub open spec fn fp2_helper_spec(opcode: u32, double: bool) -> Option<FpHelper> {
    match (opcode, double) {
        (0u32, true) => Some(FpHelper::Fmul64),
        (0u32, false) => Some(FpHelper::Fmul32),
        (1u32, true) => Some(FpHelper::Fdiv64),
        (1u32, false) => Some(FpHelper::Fdiv32),
        (2u32, true) => Some(FpHelper::Fadd64),
        (2u32, false) => Some(FpHelper::Fadd32),
        (3u32, true) => Some(FpHelper::Fsub64),
        (3u32, false) => Some(FpHelper::Fsub32),
        (4u32, true) => Some(FpHelper::Fmax64),
        (4u32, false) => Some(FpHelper::Fmax32),
        (5u32, true) => Some(FpHelper::Fmin64),
        (5u32, false) => Some(FpHelper::Fmin32),
        (6u32, true) => Some(FpHelper::Fmaxnm64),
        (6u32, false) => Some(FpHelper::Fmaxnm32),
        (7u32, true) => Some(FpHelper::Fminnm64),
        (7u32, false) => Some(FpHelper::Fminnm32),
        (8u32, true) => Some(FpHelper::Fnmul64),
        (8u32, false) => Some(FpHelper::Fnmul32),
        _ => None,
    }
}

fn fp2_helper(opcode: u32, double: bool) -> (r: Option<FpHelper>)
    ensures
        r == fp2_helper_spec(opcode, double),
{
    match (opcode, double) {
        (0u32, true) => Some(FpHelper::Fmul64),
        (0u32, false) => Some(FpHelper::Fmul32),
        (1u32, true) => Some(FpHelper::Fdiv64),
        (1u32, false) => Some(FpHelper::Fdiv32),
        (2u32, true) => Some(FpHelper::Fadd64),
        (2u32, false) => Some(FpHelper::Fadd32),
        (3u32, true) => Some(FpHelper::Fsub64),
        (3u32, false) => Some(FpHelper::Fsub32),
        (4u32, true) => Some(FpHelper::Fmax64),
        (4u32, false) => Some(FpHelper::Fmax32),
        (5u32, true) => Some(FpHelper::Fmin64),
        (5u32, false) => Some(FpHelper::Fmin32),
        (6u32, true) => Some(FpHelper::Fmaxnm64),
        (6u32, false) => Some(FpHelper::Fmaxnm32),
        (7u32, true) => Some(FpHelper::Fminnm64),
        (7u32, false) => Some(FpHelper::Fminnm32),
        (8u32, true) => Some(FpHelper::Fnmul64),
        (8u32, false) => Some(FpHelper::Fnmul32),
        _ => None,
    }
}

/// Helper of a integer to floating-point fixed-point conversion (SCVTF/UCVTF with fraction bits), by the instruction's bits under its class mask.
pub open spec fn int_fix_helper_spec(key: u32) -> Option<FpHelper> {
    match key {
        0x1e42_0000u32 => Some(FpHelper::ScvtfDWFixed),
        0x9e42_0000u32 => Some(FpHelper::ScvtfDXFixed),
        0x1e02_0000u32 => Some(FpHelper::ScvtfSWFixed),
        0x9e02_0000u32 => Some(FpHelper::ScvtfSXFixed),
        0x1e43_0000u32 => Some(FpHelper::UcvtfDWFixed),
        0x9e43_0000u32 => Some(FpHelper::UcvtfDXFixed),
        0x1e03_0000u32 => Some(FpHelper::UcvtfSWFixed),
        0x9e03_0000u32 => Some(FpHelper::UcvtfSXFixed),
        _ => None,
    }
}

fn int_fix_helper(key: u32) -> (r: Option<FpHelper>)
    ensures
        r == int_fix_helper_spec(key),
{
    match key {
        0x1e42_0000u32 => Some(FpHelper::ScvtfDWFixed),
        0x9e42_0000u32 => Some(FpHelper::ScvtfDXFixed),
        0x1e02_0000u32 => Some(FpHelper::ScvtfSWFixed),
        0x9e02_0000u32 => Some(FpHelper::ScvtfSXFixed),
        0x1e43_0000u32 => Some(FpHelper::UcvtfDWFixed),
        0x9e43_0000u32 => Some(FpHelper::UcvtfDXFixed),
        0x1e03_0000u32 => Some(FpHelper::UcvtfSWFixed),
        0x9e03_0000u32 => Some(FpHelper::UcvtfSXFixed),
        _ => None,
    }
}

/// Helper of a floating-point to integer fixed-point conversion (FCVTZS/FCVTZU with fraction bits), by the instruction's bits under its class mask.
pub open spec fn fp_fix_helper_spec(key: u32) -> Option<FpHelper> {
    match key {
        0x1e18_0000u32 => Some(FpHelper::FcvtzsWSFixed),
        0x1e19_0000u32 => Some(FpHelper::FcvtzuWSFixed),
        0x9e18_0000u32 => Some(FpHelper::FcvtzsXDFixed),
        0x9e19_0000u32 => Some(FpHelper::FcvtzuXDFixed),
        _ => None,
    }
}

fn fp_fix_helper(key: u32) -> (r: Option<FpHelper>)
    ensures
        r == fp_fix_helper_spec(key),
{
    match key {
        0x1e18_0000u32 => Some(FpHelper::FcvtzsWSFixed),
        0x1e19_0000u32 => Some(FpHelper::FcvtzuWSFixed),
        0x9e18_0000u32 => Some(FpHelper::FcvtzsXDFixed),
        0x9e19_0000u32 => Some(FpHelper::FcvtzuXDFixed),
        _ => None,
    }
}

/// The operation of a scalar floating-point instruction, tried in order
/// against the encodings the translator supports; `None` when `insn` is
/// none of them (or a two-source opcode without a helper), so that other
/// decoders may take it.
pub open spec fn fp_scalar_spec(insn: u32) -> Option<FpScalarOp> {
    let rd = insn & 0x1f;
    let rn = (insn >> 5u32) & 0x1f;
    let rm = (insn >> 16u32) & 0x1f;
    let double = (insn >> 22u32) & 3 == 1;
    let scale = ((insn >> 10u32) & 0x3f) as u64;
    if (insn & 0x7f20_fc07) == 0x1e20_2000 {
        Some(FpScalarOp::Compare { rn, other: if (insn >> 3u32) & 1 != 0 { None } else { Some(rm) } })
    } else if (insn & 0x5f20_0c00) == 0x1e20_0800 {
        match fp2_helper_spec((insn >> 12u32) & 0xf, double) {
            Some(helper) => Some(FpScalarOp::Binary { helper, rd, rn, rm }),
            None => None,
        }
    } else if (insn & 0xffff_fc00) == 0x9e62_0000 {
        Some(FpScalarOp::Unary { helper: FpHelper::ScvtfDX, src: FpLoc::X, dst: FpLoc::VLo, rd, rn })
    } else if (insn & 0xffff_fc00) == 0x1e62_0000 {
        Some(FpScalarOp::Unary { helper: FpHelper::ScvtfDW, src: FpLoc::X, dst: FpLoc::VLo, rd, rn })
    } else if (insn & 0xffff_fc00) == 0x9e22_0000 {
        Some(FpScalarOp::Unary { helper: FpHelper::ScvtfSX, src: FpLoc::X, dst: FpLoc::VLo, rd, rn })
    } else if (insn & 0xffff_fc00) == 0x1e22_0000 {
        Some(FpScalarOp::Unary { helper: FpHelper::ScvtfSW, src: FpLoc::X, dst: FpLoc::VLo, rd, rn })
    } else if (insn & 0xffff_fc00) == 0x1e63_0000 {
        Some(FpScalarOp::Unary { helper: FpHelper::UcvtfDW, src: FpLoc::X, dst: FpLoc::VLo, rd, rn })
    } else if (insn & 0xffff_fc00) == 0x9e63_0000 {
        Some(FpScalarOp::Unary { helper: FpHelper::UcvtfDX, src: FpLoc::X, dst: FpLoc::VLo, rd, rn })
    } else if (insn & 0xffff_fc00) == 0x1e23_0000 {
        Some(FpScalarOp::Unary { helper: FpHelper::UcvtfSW, src: FpLoc::X, dst: FpLoc::VLo, rd, rn })
    } else if (insn & 0xffff_fc00) == 0x9e23_0000 {
        Some(FpScalarOp::Unary { helper: FpHelper::UcvtfSX, src: FpLoc::X, dst: FpLoc::VLo, rd, rn })
    } else if int_fix_helper_spec(insn & 0xff7f_0000).is_some() {
        if scale == 0 || scale > 64 {
            Some(FpScalarOp::Unsupported)
        } else {
            Some(FpScalarOp::Fixed { helper: int_fix_helper_spec(insn & 0xff7f_0000).unwrap(), src: FpLoc::X, dst: FpLoc::VLo, rd, rn, fbits: (64 - scale) as u64 })
        }
    } else if fp_fix_helper_spec(insn & 0xff3f_0000).is_some() {
        if scale == 0 || scale > 64 {
            Some(FpScalarOp::Unsupported)
        } else {
            Some(FpScalarOp::Fixed { helper: fp_fix_helper_spec(insn & 0xff3f_0000).unwrap(), src: FpLoc::VLo, dst: FpLoc::X, rd, rn, fbits: (64 - scale) as u64 })
        }
    } else if (insn & 0xffff_fc00) == 0x9e79_0000 {
        Some(FpScalarOp::Unary { helper: FpHelper::FcvtzuXD, src: FpLoc::VLo, dst: FpLoc::X, rd, rn })
    } else if (insn & 0xffff_fc00) == 0x1e79_0000 {
        Some(FpScalarOp::Unary { helper: FpHelper::FcvtzuWD, src: FpLoc::VLo, dst: FpLoc::X, rd, rn })
    } else if (insn & 0xffff_fc00) == 0x1e78_0000 {
        Some(FpScalarOp::Unary { helper: FpHelper::FcvtzsWD, src: FpLoc::VLo, dst: FpLoc::X, rd, rn })
    } else if (insn & 0xffff_fc00) == 0x9e78_0000 {
        Some(FpScalarOp::Unary { helper: FpHelper::FcvtzsXD, src: FpLoc::VLo, dst: FpLoc::X, rd, rn })
    } else if (insn & 0xffff_fc00) == 0x9e39_0000 {
        Some(FpScalarOp::Unary { helper: FpHelper::FcvtzuXS, src: FpLoc::VLo, dst: FpLoc::X, rd, rn })
    } else if (insn & 0xffff_fc00) == 0x1e39_0000 {
        Some(FpScalarOp::Unary { helper: FpHelper::FcvtzuWS, src: FpLoc::VLo, dst: FpLoc::X, rd, rn })
    } else if (insn & 0xffff_fc00) == 0x1e38_0000 {
        Some(FpScalarOp::Unary { helper: FpHelper::FcvtzsWS, src: FpLoc::VLo, dst: FpLoc::X, rd, rn })
    } else if (insn & 0xffff_fc00) == 0x9e38_0000 {
        Some(FpScalarOp::Unary { helper: FpHelper::FcvtzsXS, src: FpLoc::VLo, dst: FpLoc::X, rd, rn })
    } else if (insn & 0xffff_fc00) == 0x9e64_0000 {
        Some(FpScalarOp::Unary { helper: FpHelper::FcvtasXD, src: FpLoc::VLo, dst: FpLoc::X, rd, rn })
    } else if (insn & 0xffff_fc00) == 0x1e64_0000 {
        Some(FpScalarOp::Unary { helper: FpHelper::FcvtasWD, src: FpLoc::VLo, dst: FpLoc::X, rd, rn })
    } else if (insn & 0xffff_fc00) == 0x9e24_0000 {
        Some(FpScalarOp::Unary { helper: FpHelper::FcvtasXS, src: FpLoc::VLo, dst: FpLoc::X, rd, rn })
    } else if (insn & 0xffff_fc00) == 0x1e24_0000 {
        Some(FpScalarOp::Unary { helper: FpHelper::FcvtasWS, src: FpLoc::VLo, dst: FpLoc::X, rd, rn })
    } else if (insn & 0xffff_fc00) == 0x1e68_0000 {
        Some(FpScalarOp::Unary { helper: FpHelper::FcvtpsWD, src: FpLoc::VLo, dst: FpLoc::X, rd, rn })
    } else if (insn & 0xffff_fc00) == 0x9e68_0000 {
        Some(FpScalarOp::Unary { helper: FpHelper::FcvtpsXD, src: FpLoc::VLo, dst: FpLoc::X, rd, rn })
    } else if (insn & 0xffff_fc00) == 0x1e28_0000 {
        Some(FpScalarOp::Unary { helper: FpHelper::FcvtpsWS, src: FpLoc::VLo, dst: FpLoc::X, rd, rn })
    } else if (insn & 0xffff_fc00) == 0x9e28_0000 {
        Some(FpScalarOp::Unary { helper: FpHelper::FcvtpsXS, src: FpLoc::VLo, dst: FpLoc::X, rd, rn })
    } else if (insn & 0xffbf_fc00) == 0x1e26_4000 {
        Some(FpScalarOp::Unary { helper: if double { FpHelper::FrintaD } else { FpHelper::FrintaS }, src: FpLoc::VLo, dst: FpLoc::VLo, rd, rn })
    } else if (insn & 0xffbf_fc00) == 0x1e25_4000 {
        Some(FpScalarOp::Unary { helper: if double { FpHelper::FrintmD } else { FpHelper::FrintmS }, src: FpLoc::VLo, dst: FpLoc::VLo, rd, rn })
    } else if (insn & 0xffbf_fc00) == 0x1e24_c000 {
        Some(FpScalarOp::Unary { helper: if double { FpHelper::FrintpD } else { FpHelper::FrintpS }, src: FpLoc::VLo, dst: FpLoc::VLo, rd, rn })
    } else if (insn & 0xffbf_fc00) == 0x1e24_4000 {
        Some(FpScalarOp::Unary { helper: if double { FpHelper::FrintnD } else { FpHelper::FrintnS }, src: FpLoc::VLo, dst: FpLoc::VLo, rd, rn })
    } else if (insn & 0xffbf_fc00) == 0x1e25_c000 {
        Some(FpScalarOp::Unary { helper: if double { FpHelper::FrintzD } else { FpHelper::FrintzS }, src: FpLoc::VLo, dst: FpLoc::VLo, rd, rn })
    } else if (insn & 0xffff_fc00) == 0x9e66_0000 {
        Some(FpScalarOp::Move { src: FpLoc::VLo, dst: FpLoc::X, rd, rn, low32: false })
    } else if (insn & 0xffff_fc00) == 0x9e67_0000 {
        Some(FpScalarOp::Move { src: FpLoc::X, dst: FpLoc::VLo, rd, rn, low32: false })
    } else if (insn & 0xffff_fc00) == 0x9eaf_0000 {
        Some(FpScalarOp::Move { src: FpLoc::X, dst: FpLoc::VHi, rd, rn, low32: false })
    } else if (insn & 0xffff_fc00) == 0x9eae_0000 {
        Some(FpScalarOp::Move { src: FpLoc::VHi, dst: FpLoc::X, rd, rn, low32: false })
    } else if (insn & 0xffff_fc00) == 0x1e70_0000 {
        Some(FpScalarOp::Unary { helper: FpHelper::FcvtmsWD, src: FpLoc::VLo, dst: FpLoc::X, rd, rn })
    } else if (insn & 0xffff_fc00) == 0x9e70_0000 {
        Some(FpScalarOp::Unary { helper: FpHelper::FcvtmsXD, src: FpLoc::VLo, dst: FpLoc::X, rd, rn })
    } else if (insn & 0xffff_fc00) == 0x1e30_0000 {
        Some(FpScalarOp::Unary { helper: FpHelper::FcvtmsWS, src: FpLoc::VLo, dst: FpLoc::X, rd, rn })
    } else if (insn & 0xffff_fc00) == 0x9e30_0000 {
        Some(FpScalarOp::Unary { helper: FpHelper::FcvtmsXS, src: FpLoc::VLo, dst: FpLoc::X, rd, rn })
    } else if (insn & 0x5f20_0c00) == 0x1e20_0400 {
        Some(FpScalarOp::CondCompare { helper: if double { FpHelper::FpCompare64 } else { FpHelper::FpCompare32 }, rn, rm, cond: (insn >> 12u32) & 0xf, nzcv: insn & 0xf })
    } else if (insn & 0xffff_fc00) == 0x1e27_0000 {
        Some(FpScalarOp::Move { src: FpLoc::X, dst: FpLoc::VLo, rd, rn, low32: true })
    } else if (insn & 0xffff_fc00) == 0x1e26_0000 {
        Some(FpScalarOp::Move { src: FpLoc::VLo, dst: FpLoc::X, rd, rn, low32: true })
    } else if (insn & 0xffbf_fc00) == 0x1e20_4000 {
        Some(FpScalarOp::Move { src: FpLoc::VLo, dst: FpLoc::VLo, rd, rn, low32: false })
    } else if (insn & 0xffbf_fc00) == 0x1e20_c000 {
        Some(FpScalarOp::Abs { rd, rn, double })
    } else if (insn & 0xffbf_fc00) == 0x1e21_4000 {
        Some(FpScalarOp::Neg { rd, rn, double })
    } else if (insn & 0x5f20_0c00) == 0x1e20_0c00 {
        Some(FpScalarOp::Select { rd, rn, rm, cond: (insn >> 12u32) & 0xf })
    } else if (insn & 0xffff_fc00) == 0x1e22_c000 {
        Some(FpScalarOp::Unary { helper: FpHelper::FcvtSToD, src: FpLoc::VLo, dst: FpLoc::VLo, rd, rn })
    } else if (insn & 0xffff_fc00) == 0x1e62_4000 {
        Some(FpScalarOp::Unary { helper: FpHelper::FcvtDToS, src: FpLoc::VLo, dst: FpLoc::VLo, rd, rn })
    } else if (insn & 0xffbf_fc00) == 0x1e21_c000 {
        Some(FpScalarOp::Unary { helper: if double { FpHelper::Fsqrt64 } else { FpHelper::Fsqrt32 }, src: FpLoc::VLo, dst: FpLoc::VLo, rd, rn })
    } else {
        None
    }
}

/// Decodes a scalar floating-point instruction.
pub fn decode_fp_scalar(insn: u32) -> (r: Option<FpScalarOp>)
    ensures
        r == fp_scalar_spec(insn),
        fp_scalar_facts(insn, r),
{
    proof {
        law_fp_scalar(insn);
    }
    let rd = insn & 0x1f;
    let rn = (insn >> 5u32) & 0x1f;
    let rm = (insn >> 16u32) & 0x1f;
    let double = (insn >> 22u32) & 3 == 1;
    let scale = ((insn >> 10u32) & 0x3f) as u64;
    if (insn & 0x7f20_fc07) == 0x1e20_2000 {
        Some(FpScalarOp::Compare { rn, other: if (insn >> 3u32) & 1 != 0 { None } else { Some(rm) } })
    } else if (insn & 0x5f20_0c00) == 0x1e20_0800 {
        match fp2_helper((insn >> 12u32) & 0xf, double) {
            Some(helper) => Some(FpScalarOp::Binary { helper, rd, rn, rm }),
            None => None,
        }
    } else if (insn & 0xffff_fc00) == 0x9e62_0000 {
        Some(FpScalarOp::Unary { helper: FpHelper::ScvtfDX, src: FpLoc::X, dst: FpLoc::VLo, rd, rn })
    } else if (insn & 0xffff_fc00) == 0x1e62_0000 {
        Some(FpScalarOp::Unary { helper: FpHelper::ScvtfDW, src: FpLoc::X, dst: FpLoc::VLo, rd, rn })
    } else if (insn & 0xffff_fc00) == 0x9e22_0000 {
        Some(FpScalarOp::Unary { helper: FpHelper::ScvtfSX, src: FpLoc::X, dst: FpLoc::VLo, rd, rn })
    } else if (insn & 0xffff_fc00) == 0x1e22_0000 {
        Some(FpScalarOp::Unary { helper: FpHelper::ScvtfSW, src: FpLoc::X, dst: FpLoc::VLo, rd, rn })
    } else if (insn & 0xffff_fc00) == 0x1e63_0000 {
        Some(FpScalarOp::Unary { helper: FpHelper::UcvtfDW, src: FpLoc::X, dst: FpLoc::VLo, rd, rn })
    } else if (insn & 0xffff_fc00) == 0x9e63_0000 {
        Some(FpScalarOp::Unary { helper: FpHelper::UcvtfDX, src: FpLoc::X, dst: FpLoc::VLo, rd, rn })
    } else if (insn & 0xffff_fc00) == 0x1e23_0000 {
        Some(FpScalarOp::Unary { helper: FpHelper::UcvtfSW, src: FpLoc::X, dst: FpLoc::VLo, rd, rn })
    } else if (insn & 0xffff_fc00) == 0x9e23_0000 {
        Some(FpScalarOp::Unary { helper: FpHelper::UcvtfSX, src: FpLoc::X, dst: FpLoc::VLo, rd, rn })
    } else if int_fix_helper(insn & 0xff7f_0000).is_some() {
        if scale == 0 || scale > 64 {
            Some(FpScalarOp::Unsupported)
        } else {
            Some(FpScalarOp::Fixed { helper: int_fix_helper(insn & 0xff7f_0000).unwrap(), src: FpLoc::X, dst: FpLoc::VLo, rd, rn, fbits: (64 - scale) as u64 })
        }
    } else if fp_fix_helper(insn & 0xff3f_0000).is_some() {
        if scale == 0 || scale > 64 {
            Some(FpScalarOp::Unsupported)
        } else {
            Some(FpScalarOp::Fixed { helper: fp_fix_helper(insn & 0xff3f_0000).unwrap(), src: FpLoc::VLo, dst: FpLoc::X, rd, rn, fbits: (64 - scale) as u64 })
        }
    } else if (insn & 0xffff_fc00) == 0x9e79_0000 {
        Some(FpScalarOp::Unary { helper: FpHelper::FcvtzuXD, src: FpLoc::VLo, dst: FpLoc::X, rd, rn })
    } else if (insn & 0xffff_fc00) == 0x1e79_0000 {
        Some(FpScalarOp::Unary { helper: FpHelper::FcvtzuWD, src: FpLoc::VLo, dst: FpLoc::X, rd, rn })
    } else if (insn & 0xffff_fc00) == 0x1e78_0000 {
        Some(FpScalarOp::Unary { helper: FpHelper::FcvtzsWD, src: FpLoc::VLo, dst: FpLoc::X, rd, rn })
    } else if (insn & 0xffff_fc00) == 0x9e78_0000 {
        Some(FpScalarOp::Unary { helper: FpHelper::FcvtzsXD, src: FpLoc::VLo, dst: FpLoc::X, rd, rn })
    } else if (insn & 0xffff_fc00) == 0x9e39_0000 {
        Some(FpScalarOp::Unary { helper: FpHelper::FcvtzuXS, src: FpLoc::VLo, dst: FpLoc::X, rd, rn })
    } else if (insn & 0xffff_fc00) == 0x1e39_0000 {
        Some(FpScalarOp::Unary { helper: FpHelper::FcvtzuWS, src: FpLoc::VLo, dst: FpLoc::X, rd, rn })
    } else if (insn & 0xffff_fc00) == 0x1e38_0000 {
        Some(FpScalarOp::Unary { helper: FpHelper::FcvtzsWS, src: FpLoc::VLo, dst: FpLoc::X, rd, rn })
    } else if (insn & 0xffff_fc00) == 0x9e38_0000 {
        Some(FpScalarOp::Unary { helper: FpHelper::FcvtzsXS, src: FpLoc::VLo, dst: FpLoc::X, rd, rn })
    } else if (insn & 0xffff_fc00) == 0x9e64_0000 {
        Some(FpScalarOp::Unary { helper: FpHelper::FcvtasXD, src: FpLoc::VLo, dst: FpLoc::X, rd, rn })
    } else if (insn & 0xffff_fc00) == 0x1e64_0000 {
        Some(FpScalarOp::Unary { helper: FpHelper::FcvtasWD, src: FpLoc::VLo, dst: FpLoc::X, rd, rn })
    } else if (insn & 0xffff_fc00) == 0x9e24_0000 {
        Some(FpScalarOp::Unary { helper: FpHelper::FcvtasXS, src: FpLoc::VLo, dst: FpLoc::X, rd, rn })
    } else if (insn & 0xffff_fc00) == 0x1e24_0000 {
        Some(FpScalarOp::Unary { helper: FpHelper::FcvtasWS, src: FpLoc::VLo, dst: FpLoc::X, rd, rn })
    } else if (insn & 0xffff_fc00) == 0x1e68_0000 {
        Some(FpScalarOp::Unary { helper: FpHelper::FcvtpsWD, src: FpLoc::VLo, dst: FpLoc::X, rd, rn })
    } else if (insn & 0xffff_fc00) == 0x9e68_0000 {
        Some(FpScalarOp::Unary { helper: FpHelper::FcvtpsXD, src: FpLoc::VLo, dst: FpLoc::X, rd, rn })
    } else if (insn & 0xffff_fc00) == 0x1e28_0000 {
        Some(FpScalarOp::Unary { helper: FpHelper::FcvtpsWS, src: FpLoc::VLo, dst: FpLoc::X, rd, rn })
    } else if (insn & 0xffff_fc00) == 0x9e28_0000 {
        Some(FpScalarOp::Unary { helper: FpHelper::FcvtpsXS, src: FpLoc::VLo, dst: FpLoc::X, rd, rn })
    } else if (insn & 0xffbf_fc00) == 0x1e26_4000 {
        Some(FpScalarOp::Unary { helper: if double { FpHelper::FrintaD } else { FpHelper::FrintaS }, src: FpLoc::VLo, dst: FpLoc::VLo, rd, rn })
    } else if (insn & 0xffbf_fc00) == 0x1e25_4000 {
        Some(FpScalarOp::Unary { helper: if double { FpHelper::FrintmD } else { FpHelper::FrintmS }, src: FpLoc::VLo, dst: FpLoc::VLo, rd, rn })
    } else if (insn & 0xffbf_fc00) == 0x1e24_c000 {
        Some(FpScalarOp::Unary { helper: if double { FpHelper::FrintpD } else { FpHelper::FrintpS }, src: FpLoc::VLo, dst: FpLoc::VLo, rd, rn })
    } else if (insn & 0xffbf_fc00) == 0x1e24_4000 {
        Some(FpScalarOp::Unary { helper: if double { FpHelper::FrintnD } else { FpHelper::FrintnS }, src: FpLoc::VLo, dst: FpLoc::VLo, rd, rn })
    } else if (insn & 0xffbf_fc00) == 0x1e25_c000 {
        Some(FpScalarOp::Unary { helper: if double { FpHelper::FrintzD } else { FpHelper::FrintzS }, src: FpLoc::VLo, dst: FpLoc::VLo, rd, rn })
    } else if (insn & 0xffff_fc00) == 0x9e66_0000 {
        Some(FpScalarOp::Move { src: FpLoc::VLo, dst: FpLoc::X, rd, rn, low32: false })
    } else if (insn & 0xffff_fc00) == 0x9e67_0000 {
        Some(FpScalarOp::Move { src: FpLoc::X, dst: FpLoc::VLo, rd, rn, low32: false })
    } else if (insn & 0xffff_fc00) == 0x9eaf_0000 {
        Some(FpScalarOp::Move { src: FpLoc::X, dst: FpLoc::VHi, rd, rn, low32: false })
    } else if (insn & 0xffff_fc00) == 0x9eae_0000 {
        Some(FpScalarOp::Move { src: FpLoc::VHi, dst: FpLoc::X, rd, rn, low32: false })
    } else if (insn & 0xffff_fc00) == 0x1e70_0000 {
        Some(FpScalarOp::Unary { helper: FpHelper::FcvtmsWD, src: FpLoc::VLo, dst: FpLoc::X, rd, rn })
    } else if (insn & 0xffff_fc00) == 0x9e70_0000 {
        Some(FpScalarOp::Unary { helper: FpHelper::FcvtmsXD, src: FpLoc::VLo, dst: FpLoc::X, rd, rn })
    } else if (insn & 0xffff_fc00) == 0x1e30_0000 {
        Some(FpScalarOp::Unary { helper: FpHelper::FcvtmsWS, src: FpLoc::VLo, dst: FpLoc::X, rd, rn })
    } else if (insn & 0xffff_fc00) == 0x9e30_0000 {
        Some(FpScalarOp::Unary { helper: FpHelper::FcvtmsXS, src: FpLoc::VLo, dst: FpLoc::X, rd, rn })
    } else if (insn & 0x5f20_0c00) == 0x1e20_0400 {
        Some(FpScalarOp::CondCompare { helper: if double { FpHelper::FpCompare64 } else { FpHelper::FpCompare32 }, rn, rm, cond: (insn >> 12u32) & 0xf, nzcv: insn & 0xf })
    } else if (insn & 0xffff_fc00) == 0x1e27_0000 {
        Some(FpScalarOp::Move { src: FpLoc::X, dst: FpLoc::VLo, rd, rn, low32: true })
    } else if (insn & 0xffff_fc00) == 0x1e26_0000 {
        Some(FpScalarOp::Move { src: FpLoc::VLo, dst: FpLoc::X, rd, rn, low32: true })
    } else if (insn & 0xffbf_fc00) == 0x1e20_4000 {
        Some(FpScalarOp::Move { src: FpLoc::VLo, dst: FpLoc::VLo, rd, rn, low32: false })
    } else if (insn & 0xffbf_fc00) == 0x1e20_c000 {
        Some(FpScalarOp::Abs { rd, rn, double })
    } else if (insn & 0xffbf_fc00) == 0x1e21_4000 {
        Some(FpScalarOp::Neg { rd, rn, double })
    } else if (insn & 0x5f20_0c00) == 0x1e20_0c00 {
        Some(FpScalarOp::Select { rd, rn, rm, cond: (insn >> 12u32) & 0xf })
    } else if (insn & 0xffff_fc00) == 0x1e22_c000 {
        Some(FpScalarOp::Unary { helper: FpHelper::FcvtSToD, src: FpLoc::VLo, dst: FpLoc::VLo, rd, rn })
    } else if (insn & 0xffff_fc00) == 0x1e62_4000 {
        Some(FpScalarOp::Unary { helper: FpHelper::FcvtDToS, src: FpLoc::VLo, dst: FpLoc::VLo, rd, rn })
    } else if (insn & 0xffbf_fc00) == 0x1e21_c000 {
        Some(FpScalarOp::Unary { helper: if double { FpHelper::Fsqrt64 } else { FpHelper::Fsqrt32 }, src: FpLoc::VLo, dst: FpLoc::VLo, rd, rn })
    } else {
        None
    }
}

/// What the A64 encoding fixes for the floating-point data-processing
/// (two source) group, stated on the fields: opcode 0 is FMUL, 1 FDIV, 2
/// FADD, 3 FSUB, 4 FMAX, 5 FMIN, 6 FMAXNM, 7 FMINNM, 8 FNMUL, in double
/// precision when `ftype` is 01 and single otherwise, on registers Rd, Rn,
/// Rm; higher opcodes are not handled here. A fixed-point SCVTF/UCVTF or
/// FCVTZS/FCVTZU has `64 - scale` fraction bits (a scale of 0 has none
/// and is refused). FCMP compares with zero exactly when bit 3 is set.
pub open spec fn fp_scalar_facts(insn: u32, r: Option<FpScalarOp>) -> bool {
    let rd = insn & 0x1f;
    let rn = (insn >> 5u32) & 0x1f;
    let rm = (insn >> 16u32) & 0x1f;
    let double = (insn >> 22u32) & 3 == 1;
    let opcode = (insn >> 12u32) & 0xf;
    let scale = (insn >> 10u32) & 0x3f;
    &&& (insn & 0x5f20_0c00) == 0x1e20_0800 ==> r == match (if opcode == 0 {
            Some(if double { FpHelper::Fmul64 } else { FpHelper::Fmul32 })
        } else if opcode == 1 {
            Some(if double { FpHelper::Fdiv64 } else { FpHelper::Fdiv32 })
        } else if opcode == 2 {
            Some(if double { FpHelper::Fadd64 } else { FpHelper::Fadd32 })
        } else if opcode == 3 {
            Some(if double { FpHelper::Fsub64 } else { FpHelper::Fsub32 })
        } else if opcode == 4 {
            Some(if double { FpHelper::Fmax64 } else { FpHelper::Fmax32 })
        } else if opcode == 5 {
            Some(if double { FpHelper::Fmin64 } else { FpHelper::Fmin32 })
        } else if opcode == 6 {
            Some(if double { FpHelper::Fmaxnm64 } else { FpHelper::Fmaxnm32 })
        } else if opcode == 7 {
            Some(if double { FpHelper::Fminnm64 } else { FpHelper::Fminnm32 })
        } else if opcode == 8 {
            Some(if double { FpHelper::Fnmul64 } else { FpHelper::Fnmul32 })
        } else {
            None
        }) {
        Some(helper) => Some(FpScalarOp::Binary { helper, rd, rn, rm }),
        None => None,
    }
    &&& (insn & 0x7f20_fc07) == 0x1e20_2000 ==> (r matches Some(FpScalarOp::Compare { rn: n, other })
        && n == rn && (other is None <==> (insn >> 3u32) & 1 != 0))
    &&& r matches Some(FpScalarOp::Fixed { fbits, .. }) ==> 1 <= scale && fbits == 64 - scale
}

/// Every scalar floating-point instruction decodes by the A64 encoding (see
/// `fp_scalar_facts`).
pub proof fn law_fp_scalar(insn: u32)
    ensures
        fp_scalar_facts(insn, fp_scalar_spec(insn)),
{
    assert((insn & 0x5f20_0c00) == 0x1e20_0800 ==> (insn & 0x7f20_fc07) != 0x1e20_2000)
        by (bit_vector);
}

} // verus!
