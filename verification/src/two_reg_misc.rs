//! Decoding of the AdvSIMD two-register miscellaneous instructions: the
//! operation by `U` bit, element size and opcode.

use vstd::prelude::*;

verus! {

/// The operation of a two-register miscellaneous instruction. Element-wise
/// operations apply to each half of `rn` (the high half only when `q` is
/// set, otherwise the high half of `rd` is zeroed); most are the verified
/// helpers of `crate::neon` of the matching name (`Cnt8` is `helper_cnt8`, `Cmeq8Zero` is `helper_cmeq8` against 0,
/// `Cmeq32Zero` is `helper_cmeq32_zero`, `Rev64Words` is
/// `helper_rev64_2s`, `Rev64Halfwords` is `helper_rev64_16`, `Neg16` is
/// `helper_neg16`, ...); the conversions (`Fcvtzs*`, `Scvtf*`, `Ucvtf*`,
/// `Fcvtl`) are floating-point helpers. `Rev64Bytes` swaps the bytes of
/// each half, `Not` inverts it, `Neg64` negates it and `Cmeq64Zero` sets it
/// to all ones when zero. `Xtn8`/`Xtn32` narrow `rn` into the low half;
/// `Xtn16` narrows into the low half (`q` clear) or the high half (XTN2).
/// `Uxtl8`/`Uxtl16` widen the low half of `rn` (the high half for the `2`
/// forms) into both halves of `rd`, as `helper_ushll8`/`helper_ushll16`
/// with shift 0; `Fcvtl` widens two singles of the low (or high) half.
#[derive(Clone, Copy, Debug, PartialEq, Eq, Structural)]
pub enum TwoRegMiscKind {
    Cmeq8Zero,
    Cnt8,
    Rev64Words,
    Rev64Bytes,
    Xtn8,
    Xtn16,
    Abs32,
    Cmeq32Zero,
    Cmeq16Zero,
    Xtn32,
    Rev64Halfwords,
    Cmlt32Zero,
    Uxtl16,
    Uxtl8,
    Cmeq64Zero,
    Fcvtl,
    Neg32,
    Not,
    Neg8,
    Neg16,
    Neg64,
    Fcvtzs32,
    Scvtf32,
    Ucvtf32,
    Scvtf64,
    Ucvtf64,
    Fcvtzs64,
}

/// A decoded two-register miscellaneous instruction.
#[derive(Clone, Copy, Debug, PartialEq, Eq, Structural)]
pub struct NeonTwoRegMiscOp {
    pub kind: TwoRegMiscKind,
    pub q: bool,
    pub rd: u32,
    pub rn: u32,
}

/// The operation of a two-register miscellaneous instruction (`0 Q U 01110
/// size 10000 opcode 10 Rn Rd`), or `None` for a combination the
/// translator does not handle.
pub open spec fn neon_2reg_misc_spec(insn: u32) -> Option<NeonTwoRegMiscOp> {
    let q = (insn >> 30u32) % 2;
    let u = (insn >> 29u32) % 2;
    let size = (insn >> 22u32) % 4;
    let opcode = (insn >> 12u32) % 32;
    let rn = (insn >> 5u32) % 32;
    let rd = insn % 32;
    match (u, size, opcode) {
        (0u32, 0b00u32, 0b01001u32) => Some(NeonTwoRegMiscOp { kind: TwoRegMiscKind::Cmeq8Zero, q: q == 1, rd, rn }),
        (0u32, 0b00u32, 0b00101u32) => Some(NeonTwoRegMiscOp { kind: TwoRegMiscKind::Cnt8, q: q == 1, rd, rn }),
        (0u32, 0b10u32, 0b00000u32) => Some(NeonTwoRegMiscOp { kind: TwoRegMiscKind::Rev64Words, q: q == 1, rd, rn }),
        (0u32, 0b00u32, 0b00000u32) => Some(NeonTwoRegMiscOp { kind: TwoRegMiscKind::Rev64Bytes, q: q == 1, rd, rn }),
        (0u32, 0b00u32, 0b10010u32) => Some(NeonTwoRegMiscOp { kind: TwoRegMiscKind::Xtn8, q: q == 1, rd, rn }),
        (0u32, 0b01u32, 0b10010u32) => Some(NeonTwoRegMiscOp { kind: TwoRegMiscKind::Xtn16, q: q == 1, rd, rn }),
        (0u32, 0b10u32, 0b01011u32) => Some(NeonTwoRegMiscOp { kind: TwoRegMiscKind::Abs32, q: q == 1, rd, rn }),
        (0u32, 0b10u32, 0b01001u32) => Some(NeonTwoRegMiscOp { kind: TwoRegMiscKind::Cmeq32Zero, q: q == 1, rd, rn }),
        (0u32, 0b01u32, 0b01001u32) => Some(NeonTwoRegMiscOp { kind: TwoRegMiscKind::Cmeq16Zero, q: q == 1, rd, rn }),
        (0u32, 0b10u32, 0b10010u32) => Some(NeonTwoRegMiscOp { kind: TwoRegMiscKind::Xtn32, q: q == 1, rd, rn }),
        (0u32, 0b01u32, 0b00000u32) => Some(NeonTwoRegMiscOp { kind: TwoRegMiscKind::Rev64Halfwords, q: q == 1, rd, rn }),
        (0u32, 0b10u32, 0b01010u32) => Some(NeonTwoRegMiscOp { kind: TwoRegMiscKind::Cmlt32Zero, q: q == 1, rd, rn }),
        (1u32, 0b01u32, 0b10011u32) => Some(NeonTwoRegMiscOp { kind: TwoRegMiscKind::Uxtl16, q: q == 1, rd, rn }),
        (1u32, 0b00u32, 0b10011u32) => Some(NeonTwoRegMiscOp { kind: TwoRegMiscKind::Uxtl8, q: q == 1, rd, rn }),
        (0u32, 0b11u32, 0b01001u32) => Some(NeonTwoRegMiscOp { kind: TwoRegMiscKind::Cmeq64Zero, q: q == 1, rd, rn }),
        (0u32, 0b01u32, 0b10111u32) => Some(NeonTwoRegMiscOp { kind: TwoRegMiscKind::Fcvtl, q: q == 1, rd, rn }),
        (1u32, 0b10u32, 0b01011u32) => Some(NeonTwoRegMiscOp { kind: TwoRegMiscKind::Neg32, q: q == 1, rd, rn }),
        (1u32, 0b00u32, 0b00101u32) => Some(NeonTwoRegMiscOp { kind: TwoRegMiscKind::Not, q: q == 1, rd, rn }),
        (1u32, 0b00u32, 0b01011u32) => Some(NeonTwoRegMiscOp { kind: TwoRegMiscKind::Neg8, q: q == 1, rd, rn }),
        (1u32, 0b01u32, 0b01011u32) => Some(NeonTwoRegMiscOp { kind: TwoRegMiscKind::Neg16, q: q == 1, rd, rn }),
        (1u32, 0b11u32, 0b01011u32) => Some(NeonTwoRegMiscOp { kind: TwoRegMiscKind::Neg64, q: q == 1, rd, rn }),
        (0u32, 0b10u32, 0b11011u32) => Some(NeonTwoRegMiscOp { kind: TwoRegMiscKind::Fcvtzs32, q: q == 1, rd, rn }),
        (0u32, 0b00u32, 0b11101u32) => Some(NeonTwoRegMiscOp { kind: TwoRegMiscKind::Scvtf32, q: q == 1, rd, rn }),
        (1u32, 0b00u32, 0b11101u32) => Some(NeonTwoRegMiscOp { kind: TwoRegMiscKind::Ucvtf32, q: q == 1, rd, rn }),
        (0u32, 0b01u32, 0b11101u32) => Some(NeonTwoRegMiscOp { kind: TwoRegMiscKind::Scvtf64, q: q == 1, rd, rn }),
        (1u32, 0b01u32, 0b11101u32) => Some(NeonTwoRegMiscOp { kind: TwoRegMiscKind::Ucvtf64, q: q == 1, rd, rn }),
        (0u32, 0b11u32, 0b11011u32) => Some(NeonTwoRegMiscOp { kind: TwoRegMiscKind::Fcvtzs64, q: q == 1, rd, rn }),
        _ => None,
    }
}

/// Decodes a two-register miscellaneous instruction.
pub fn decode_neon_2reg_misc(insn: u32) -> (r: Option<NeonTwoRegMiscOp>)
    ensures
        r == neon_2reg_misc_spec(insn),
        two_reg_misc_facts(insn, r),
{
    proof {
        law_two_reg_misc(insn);
    }
    let q = (insn >> 30u32) % 2;
    let u = (insn >> 29u32) % 2;
    let size = (insn >> 22u32) % 4;
    let opcode = (insn >> 12u32) % 32;
    let rn = (insn >> 5u32) % 32;
    let rd = insn % 32;
    match (u, size, opcode) {
        (0u32, 0b00u32, 0b01001u32) => Some(NeonTwoRegMiscOp { kind: TwoRegMiscKind::Cmeq8Zero, q: q == 1, rd, rn }),
        (0u32, 0b00u32, 0b00101u32) => Some(NeonTwoRegMiscOp { kind: TwoRegMiscKind::Cnt8, q: q == 1, rd, rn }),
        (0u32, 0b10u32, 0b00000u32) => Some(NeonTwoRegMiscOp { kind: TwoRegMiscKind::Rev64Words, q: q == 1, rd, rn }),
        (0u32, 0b00u32, 0b00000u32) => Some(NeonTwoRegMiscOp { kind: TwoRegMiscKind::Rev64Bytes, q: q == 1, rd, rn }),
        (0u32, 0b00u32, 0b10010u32) => Some(NeonTwoRegMiscOp { kind: TwoRegMiscKind::Xtn8, q: q == 1, rd, rn }),
        (0u32, 0b01u32, 0b10010u32) => Some(NeonTwoRegMiscOp { kind: TwoRegMiscKind::Xtn16, q: q == 1, rd, rn }),
        (0u32, 0b10u32, 0b01011u32) => Some(NeonTwoRegMiscOp { kind: TwoRegMiscKind::Abs32, q: q == 1, rd, rn }),
        (0u32, 0b10u32, 0b01001u32) => Some(NeonTwoRegMiscOp { kind: TwoRegMiscKind::Cmeq32Zero, q: q == 1, rd, rn }),
        (0u32, 0b01u32, 0b01001u32) => Some(NeonTwoRegMiscOp { kind: TwoRegMiscKind::Cmeq16Zero, q: q == 1, rd, rn }),
        (0u32, 0b10u32, 0b10010u32) => Some(NeonTwoRegMiscOp { kind: TwoRegMiscKind::Xtn32, q: q == 1, rd, rn }),
        (0u32, 0b01u32, 0b00000u32) => Some(NeonTwoRegMiscOp { kind: TwoRegMiscKind::Rev64Halfwords, q: q == 1, rd, rn }),
        (0u32, 0b10u32, 0b01010u32) => Some(NeonTwoRegMiscOp { kind: TwoRegMiscKind::Cmlt32Zero, q: q == 1, rd, rn }),
        (1u32, 0b01u32, 0b10011u32) => Some(NeonTwoRegMiscOp { kind: TwoRegMiscKind::Uxtl16, q: q == 1, rd, rn }),
        (1u32, 0b00u32, 0b10011u32) => Some(NeonTwoRegMiscOp { kind: TwoRegMiscKind::Uxtl8, q: q == 1, rd, rn }),
        (0u32, 0b11u32, 0b01001u32) => Some(NeonTwoRegMiscOp { kind: TwoRegMiscKind::Cmeq64Zero, q: q == 1, rd, rn }),
        (0u32, 0b01u32, 0b10111u32) => Some(NeonTwoRegMiscOp { kind: TwoRegMiscKind::Fcvtl, q: q == 1, rd, rn }),
        (1u32, 0b10u32, 0b01011u32) => Some(NeonTwoRegMiscOp { kind: TwoRegMiscKind::Neg32, q: q == 1, rd, rn }),
        (1u32, 0b00u32, 0b00101u32) => Some(NeonTwoRegMiscOp { kind: TwoRegMiscKind::Not, q: q == 1, rd, rn }),
        (1u32, 0b00u32, 0b01011u32) => Some(NeonTwoRegMiscOp { kind: TwoRegMiscKind::Neg8, q: q == 1, rd, rn }),
        (1u32, 0b01u32, 0b01011u32) => Some(NeonTwoRegMiscOp { kind: TwoRegMiscKind::Neg16, q: q == 1, rd, rn }),
        (1u32, 0b11u32, 0b01011u32) => Some(NeonTwoRegMiscOp { kind: TwoRegMiscKind::Neg64, q: q == 1, rd, rn }),
        (0u32, 0b10u32, 0b11011u32) => Some(NeonTwoRegMiscOp { kind: TwoRegMiscKind::Fcvtzs32, q: q == 1, rd, rn }),
        (0u32, 0b00u32, 0b11101u32) => Some(NeonTwoRegMiscOp { kind: TwoRegMiscKind::Scvtf32, q: q == 1, rd, rn }),
        (1u32, 0b00u32, 0b11101u32) => Some(NeonTwoRegMiscOp { kind: TwoRegMiscKind::Ucvtf32, q: q == 1, rd, rn }),
        (0u32, 0b01u32, 0b11101u32) => Some(NeonTwoRegMiscOp { kind: TwoRegMiscKind::Scvtf64, q: q == 1, rd, rn }),
        (1u32, 0b01u32, 0b11101u32) => Some(NeonTwoRegMiscOp { kind: TwoRegMiscKind::Ucvtf64, q: q == 1, rd, rn }),
        (0u32, 0b11u32, 0b11011u32) => Some(NeonTwoRegMiscOp { kind: TwoRegMiscKind::Fcvtzs64, q: q == 1, rd, rn }),
        _ => None,
    }
}

/// Element width of an integer element-wise operation, named by its
/// element (the destination element for narrowing and the source for
/// widening); 0 for the others.
pub open spec fn tr_width(k: TwoRegMiscKind) -> nat {
    match k {
        TwoRegMiscKind::Cmeq8Zero | TwoRegMiscKind::Cnt8 | TwoRegMiscKind::Rev64Bytes
        | TwoRegMiscKind::Xtn8 | TwoRegMiscKind::Uxtl8 | TwoRegMiscKind::Not
        | TwoRegMiscKind::Neg8 => 8,
        TwoRegMiscKind::Cmeq16Zero | TwoRegMiscKind::Xtn16 | TwoRegMiscKind::Rev64Halfwords
        | TwoRegMiscKind::Uxtl16 | TwoRegMiscKind::Neg16 => 16,
        TwoRegMiscKind::Rev64Words | TwoRegMiscKind::Abs32 | TwoRegMiscKind::Cmeq32Zero
        | TwoRegMiscKind::Xtn32 | TwoRegMiscKind::Cmlt32Zero | TwoRegMiscKind::Neg32 => 32,
        TwoRegMiscKind::Cmeq64Zero | TwoRegMiscKind::Neg64 => 64,
        _ => 0,
    }
}

/// What the A64 two-register miscellaneous table fixes, stated on the
/// fields: registers and `Q` come from their fields; an integer operation
/// works on elements of `8 << size` bits; `U` separates ABS (clear) from NEG
/// (set) for opcode 01011, CNT from NOT for 00101, SCVTF from UCVTF for
/// 11101 (singles when size is 00, doubles when 01), and opcode 01001 with
/// `U` clear compares with zero.
pub open spec fn two_reg_misc_facts(insn: u32, r: Option<NeonTwoRegMiscOp>) -> bool {
    let q = (insn >> 30u32) % 2;
    let u = (insn >> 29u32) % 2;
    let size = (insn >> 22u32) % 4;
    let opcode = (insn >> 12u32) % 32;
    r matches Some(op) ==> {
        &&& op.rd == insn % 32 && op.rn == (insn >> 5u32) % 32 && op.q == (q == 1)
        &&& tr_width(op.kind) != 0 ==> tr_width(op.kind) == (if size == 0 {
            8nat
        } else if size == 1 {
            16nat
        } else if size == 2 {
            32nat
        } else {
            64nat
        })
        &&& opcode == 0b01011 ==> (u == 0 <==> op.kind is Abs32) && (u == 1 <==> (op.kind is Neg8
            || op.kind is Neg16 || op.kind is Neg32 || op.kind is Neg64))
        &&& opcode == 0b00101 ==> (u == 0 <==> op.kind is Cnt8) && (u == 1 <==> op.kind is Not)
        &&& opcode == 0b11101 ==> (u == 0 <==> (op.kind is Scvtf32 || op.kind is Scvtf64)) && (u
            == 1 <==> (op.kind is Ucvtf32 || op.kind is Ucvtf64)) && ((op.kind is Scvtf32
            || op.kind is Ucvtf32) <==> size == 0)
        &&& (opcode == 0b01001 && u == 0) ==> (op.kind is Cmeq8Zero || op.kind is Cmeq16Zero
            || op.kind is Cmeq32Zero || op.kind is Cmeq64Zero)
    }
}

/// Every two-register miscellaneous instruction decodes by the A64 table
/// (see `two_reg_misc_facts`).
pub proof fn law_two_reg_misc(insn: u32)
    ensures
        two_reg_misc_facts(insn, neon_2reg_misc_spec(insn)),
{
}

} // verus!
