//! Decoding of the AdvSIMD shift-by-immediate instructions: the operation,
//! its element size from `immh`, and the shift amount (or number of
//! fraction bits) from `immh:immb`.

use vstd::prelude::*;

verus! {

/// The operation of a shift-by-immediate instruction. A variant named after
/// a verified helper of `crate::neon` (`Shl8` is `helper_shl8`, `Ushr64` is
/// `helper_ushr64`, `Ssra32` is `helper_ssra32`, `Ushll16` is
/// `helper_ushll16`, ...) is carried out by that helper on each 64-bit half;
/// `Shrn8` narrows both halves of `rn` into the low half of `rd`;
/// `Ushll*`/`Sshll*` widen the low half of `rn` (or its high half for the
/// `2` forms, `q` set) into both halves of `rd`; `Ushll32`/`Sshll32` have no
/// helper and extend each word directly; `FcvtzsFixed32` converts each
/// single to a fixed-point word with `shift` fraction bits.
#[derive(Clone, Copy, Debug, PartialEq, Eq, Structural)]
pub enum ShiftKind {
    Shrn8,
    Shl8,
    Shl16,
    Shl32,
    Shl64,
    Ushr32,
    Ushr64,
    Ushr16,
    Ushr8,
    Sshr32,
    Ssra32,
    Sshr16,
    Sshr8,
    Ushll8,
    Ushll16,
    Ushll32,
    Sshll8,
    Sshll16,
    Sshll32,
    FcvtzsFixed32,
}

/// A decoded shift-by-immediate instruction.
#[derive(Clone, Copy, Debug, PartialEq, Eq, Structural)]
pub struct NeonShiftImmOp {
    pub kind: ShiftKind,
    /// 128-bit operation (`Q` set).
    pub q: bool,
    pub rd: u32,
    pub rn: u32,
    /// Shift amount, or fraction bits for `FcvtzsFixed32`.
    pub shift: u32,
}

/// The operation of a shift-by-immediate instruction (`0 Q U 011110 immh
/// immb opcode 1 Rn Rd`), or `None` for a combination the translator does
/// not handle.
pub open spec fn neon_shift_imm_spec(insn: u32) -> Option<NeonShiftImmOp> {
    let q = (insn >> 30u32) % 2;
    let u = (insn >> 29u32) % 2;
    let immh = (insn >> 19u32) % 16;
    let immb = (insn >> 16u32) % 8;
    let opcode = (insn >> 11u32) % 32;
    let rn = (insn >> 5u32) % 32;
    let rd = insn % 32;
    let immhb = (immh * 8 + immb) as u32;
    if u == 0 && opcode == 0b10000 && 1 <= immh && immh < 2 {
        Some(NeonShiftImmOp { kind: ShiftKind::Shrn8, q: q == 1, rd, rn, shift: (16 - immhb) as u32 })
    } else if u == 0 && opcode == 0b01010 && 1 <= immh && immh < 2 {
        Some(NeonShiftImmOp { kind: ShiftKind::Shl8, q: q == 1, rd, rn, shift: (immhb - 8) as u32 })
    } else if u == 0 && opcode == 0b01010 && 2 <= immh && immh < 4 {
        Some(NeonShiftImmOp { kind: ShiftKind::Shl16, q: q == 1, rd, rn, shift: (immhb - 16) as u32 })
    } else if u == 0 && opcode == 0b01010 && 4 <= immh && immh < 8 {
        Some(NeonShiftImmOp { kind: ShiftKind::Shl32, q: q == 1, rd, rn, shift: (immhb - 32) as u32 })
    } else if u == 0 && opcode == 0b01010 && immh >= 8 {
        Some(NeonShiftImmOp { kind: ShiftKind::Shl64, q: q == 1, rd, rn, shift: (immhb - 64) as u32 })
    } else if u == 1 && opcode == 0b00000 && 4 <= immh && immh < 8 {
        Some(NeonShiftImmOp { kind: ShiftKind::Ushr32, q: q == 1, rd, rn, shift: (64 - immhb) as u32 })
    } else if u == 1 && opcode == 0b00000 && immh >= 8 {
        Some(NeonShiftImmOp { kind: ShiftKind::Ushr64, q: q == 1, rd, rn, shift: (128 - immhb) as u32 })
    } else if u == 1 && opcode == 0b00000 && 2 <= immh && immh < 4 {
        Some(NeonShiftImmOp { kind: ShiftKind::Ushr16, q: q == 1, rd, rn, shift: (32 - immhb) as u32 })
    } else if u == 1 && opcode == 0b00000 && 1 <= immh && immh < 2 {
        Some(NeonShiftImmOp { kind: ShiftKind::Ushr8, q: q == 1, rd, rn, shift: (16 - immhb) as u32 })
    } else if u == 0 && opcode == 0b00000 && 4 <= immh && immh < 8 {
        Some(NeonShiftImmOp { kind: ShiftKind::Sshr32, q: q == 1, rd, rn, shift: (64 - immhb) as u32 })
    } else if u == 0 && opcode == 0b00010 && 4 <= immh && immh < 8 {
        Some(NeonShiftImmOp { kind: ShiftKind::Ssra32, q: q == 1, rd, rn, shift: (64 - immhb) as u32 })
    } else if u == 0 && opcode == 0b00000 && 2 <= immh && immh < 4 {
        Some(NeonShiftImmOp { kind: ShiftKind::Sshr16, q: q == 1, rd, rn, shift: (32 - immhb) as u32 })
    } else if u == 0 && opcode == 0b00000 && 1 <= immh && immh < 2 {
        Some(NeonShiftImmOp { kind: ShiftKind::Sshr8, q: q == 1, rd, rn, shift: (16 - immhb) as u32 })
    } else if u == 1 && opcode == 0b10100 && 1 <= immh && immh < 2 {
        Some(NeonShiftImmOp { kind: ShiftKind::Ushll8, q: q == 1, rd, rn, shift: (immhb - 8) as u32 })
    } else if u == 1 && opcode == 0b10100 && 2 <= immh && immh < 4 {
        Some(NeonShiftImmOp { kind: ShiftKind::Ushll16, q: q == 1, rd, rn, shift: (immhb - 16) as u32 })
    } else if u == 1 && opcode == 0b10100 && 4 <= immh && immh < 8 {
        Some(NeonShiftImmOp { kind: ShiftKind::Ushll32, q: q == 1, rd, rn, shift: (immhb - 32) as u32 })
    } else if u == 0 && opcode == 0b10100 && 1 <= immh && immh < 2 {
        Some(NeonShiftImmOp { kind: ShiftKind::Sshll8, q: q == 1, rd, rn, shift: (immhb - 8) as u32 })
    } else if u == 0 && opcode == 0b10100 && 2 <= immh && immh < 4 {
        Some(NeonShiftImmOp { kind: ShiftKind::Sshll16, q: q == 1, rd, rn, shift: (immhb - 16) as u32 })
    } else if u == 0 && opcode == 0b10100 && 4 <= immh && immh < 8 {
        Some(NeonShiftImmOp { kind: ShiftKind::Sshll32, q: q == 1, rd, rn, shift: (immhb - 32) as u32 })
    } else if u == 0 && opcode == 0b11111 && 4 <= immh && immh < 8 {
        Some(NeonShiftImmOp { kind: ShiftKind::FcvtzsFixed32, q: q == 1, rd, rn, shift: (64 - immhb) as u32 })
    } else {
        None
    }
}

/// Decodes a shift-by-immediate instruction; no shift exceeds 64.
pub fn decode_neon_shift_imm(insn: u32) -> (r: Option<NeonShiftImmOp>)
    ensures
        r == neon_shift_imm_spec(insn),
        r matches Some(op) ==> op.shift <= 64,
        shift_imm_facts(insn, r),
{
    proof {
        law_shift_imm(insn);
    }
    let q = (insn >> 30u32) % 2;
    let u = (insn >> 29u32) % 2;
    let immh = (insn >> 19u32) % 16;
    let immb = (insn >> 16u32) % 8;
    let opcode = (insn >> 11u32) % 32;
    let rn = (insn >> 5u32) % 32;
    let rd = insn % 32;
    let immhb = (immh * 8 + immb) as u32;
    if u == 0 && opcode == 0b10000 && 1 <= immh && immh < 2 {
        Some(NeonShiftImmOp { kind: ShiftKind::Shrn8, q: q == 1, rd, rn, shift: (16 - immhb) as u32 })
    } else if u == 0 && opcode == 0b01010 && 1 <= immh && immh < 2 {
        Some(NeonShiftImmOp { kind: ShiftKind::Shl8, q: q == 1, rd, rn, shift: (immhb - 8) as u32 })
    } else if u == 0 && opcode == 0b01010 && 2 <= immh && immh < 4 {
        Some(NeonShiftImmOp { kind: ShiftKind::Shl16, q: q == 1, rd, rn, shift: (immhb - 16) as u32 })
    } else if u == 0 && opcode == 0b01010 && 4 <= immh && immh < 8 {
        Some(NeonShiftImmOp { kind: ShiftKind::Shl32, q: q == 1, rd, rn, shift: (immhb - 32) as u32 })
    } else if u == 0 && opcode == 0b01010 && immh >= 8 {
        Some(NeonShiftImmOp { kind: ShiftKind::Shl64, q: q == 1, rd, rn, shift: (immhb - 64) as u32 })
    } else if u == 1 && opcode == 0b00000 && 4 <= immh && immh < 8 {
        Some(NeonShiftImmOp { kind: ShiftKind::Ushr32, q: q == 1, rd, rn, shift: (64 - immhb) as u32 })
    } else if u == 1 && opcode == 0b00000 && immh >= 8 {
        Some(NeonShiftImmOp { kind: ShiftKind::Ushr64, q: q == 1, rd, rn, shift: (128 - immhb) as u32 })
    } else if u == 1 && opcode == 0b00000 && 2 <= immh && immh < 4 {
        Some(NeonShiftImmOp { kind: ShiftKind::Ushr16, q: q == 1, rd, rn, shift: (32 - immhb) as u32 })
    } else if u == 1 && opcode == 0b00000 && 1 <= immh && immh < 2 {
        Some(NeonShiftImmOp { kind: ShiftKind::Ushr8, q: q == 1, rd, rn, shift: (16 - immhb) as u32 })
    } else if u == 0 && opcode == 0b00000 && 4 <= immh && immh < 8 {
        Some(NeonShiftImmOp { kind: ShiftKind::Sshr32, q: q == 1, rd, rn, shift: (64 - immhb) as u32 })
    } else if u == 0 && opcode == 0b00010 && 4 <= immh && immh < 8 {
        Some(NeonShiftImmOp { kind: ShiftKind::Ssra32, q: q == 1, rd, rn, shift: (64 - immhb) as u32 })
    } else if u == 0 && opcode == 0b00000 && 2 <= immh && immh < 4 {
        Some(NeonShiftImmOp { kind: ShiftKind::Sshr16, q: q == 1, rd, rn, shift: (32 - immhb) as u32 })
    } else if u == 0 && opcode == 0b00000 && 1 <= immh && immh < 2 {
        Some(NeonShiftImmOp { kind: ShiftKind::Sshr8, q: q == 1, rd, rn, shift: (16 - immhb) as u32 })
    } else if u == 1 && opcode == 0b10100 && 1 <= immh && immh < 2 {
        Some(NeonShiftImmOp { kind: ShiftKind::Ushll8, q: q == 1, rd, rn, shift: (immhb - 8) as u32 })
    } else if u == 1 && opcode == 0b10100 && 2 <= immh && immh < 4 {
        Some(NeonShiftImmOp { kind: ShiftKind::Ushll16, q: q == 1, rd, rn, shift: (immhb - 16) as u32 })
    } else if u == 1 && opcode == 0b10100 && 4 <= immh && immh < 8 {
        Some(NeonShiftImmOp { kind: ShiftKind::Ushll32, q: q == 1, rd, rn, shift: (immhb - 32) as u32 })
    } else if u == 0 && opcode == 0b10100 && 1 <= immh && immh < 2 {
        Some(NeonShiftImmOp { kind: ShiftKind::Sshll8, q: q == 1, rd, rn, shift: (immhb - 8) as u32 })
    } else if u == 0 && opcode == 0b10100 && 2 <= immh && immh < 4 {
        Some(NeonShiftImmOp { kind: ShiftKind::Sshll16, q: q == 1, rd, rn, shift: (immhb - 16) as u32 })
    } else if u == 0 && opcode == 0b10100 && 4 <= immh && immh < 8 {
        Some(NeonShiftImmOp { kind: ShiftKind::Sshll32, q: q == 1, rd, rn, shift: (immhb - 32) as u32 })
    } else if u == 0 && opcode == 0b11111 && 4 <= immh && immh < 8 {
        Some(NeonShiftImmOp { kind: ShiftKind::FcvtzsFixed32, q: q == 1, rd, rn, shift: (64 - immhb) as u32 })
    } else {
        None
    }
}

/// Element width in bits that an operation works on (the narrow side of
/// a narrowing or widening operation).
pub open spec fn kind_width(k: ShiftKind) -> nat {
    match k {
        ShiftKind::Shrn8 | ShiftKind::Shl8 | ShiftKind::Ushr8 | ShiftKind::Sshr8
        | ShiftKind::Ushll8 | ShiftKind::Sshll8 => 8,
        ShiftKind::Shl16 | ShiftKind::Ushr16 | ShiftKind::Sshr16 | ShiftKind::Ushll16
        | ShiftKind::Sshll16 => 16,
        ShiftKind::Shl32 | ShiftKind::Ushr32 | ShiftKind::Sshr32 | ShiftKind::Ssra32
        | ShiftKind::Ushll32 | ShiftKind::Sshll32 | ShiftKind::FcvtzsFixed32 => 32,
        ShiftKind::Shl64 | ShiftKind::Ushr64 => 64,
    }
}

/// A signed (arithmetic) right shift of each element.
pub open spec fn signed_right(k: ShiftKind) -> bool {
    k is Sshr8 || k is Sshr16 || k is Sshr32
}

/// An unsigned (logical) right shift of each element.
pub open spec fn unsigned_right(k: ShiftKind) -> bool {
    k is Ushr8 || k is Ushr16 || k is Ushr32 || k is Ushr64
}

/// An operation whose amount counts down from twice the element width
/// (right shifts, narrowing, fraction bits); the others shift left.
pub open spec fn counts_down(k: ShiftKind) -> bool {
    signed_right(k) || unsigned_right(k) || k is Ssra32 || k is Shrn8 || k is FcvtzsFixed32
}

/// Element width that `immh` selects: 8 bits times the power of two of its
/// highest set bit.
pub open spec fn immh_width(immh: u32) -> nat {
    if immh >= 8 {
        64
    } else if immh >= 4 {
        32
    } else if immh >= 2 {
        16
    } else {
        8
    }
}

/// What the A64 shift-by-immediate encoding fixes, whatever the operation:
/// the element width comes from the highest set bit of `immh`; a right
/// shift by `2 * width - immh:immb` (1 to `width`), a left shift by
/// `immh:immb - width` (0 to `width - 1`); opcode 00000 is SSHR when `U` is
/// clear and USHR when it is set; SHL (opcode 01010, `U` clear), SSHR and
/// USHR are decoded for every element size they exist for, and registers
/// and `Q` come from their fields.
pub open spec fn shift_imm_facts(insn: u32, r: Option<NeonShiftImmOp>) -> bool {
    let q = (insn >> 30u32) % 2;
    let u = (insn >> 29u32) % 2;
    let immh = (insn >> 19u32) % 16;
    let immhb = immh * 8 + (insn >> 16u32) % 8;
    let opcode = (insn >> 11u32) % 32;
    &&& r matches Some(op) ==> {
        &&& op.rd == insn % 32 && op.rn == (insn >> 5u32) % 32 && op.q == (q == 1)
        &&& immh >= 1 && kind_width(op.kind) == immh_width(immh)
        &&& counts_down(op.kind) ==> op.shift == 2 * kind_width(op.kind) - immhb && 1 <= op.shift
            <= kind_width(op.kind)
        &&& !counts_down(op.kind) ==> op.shift == immhb - kind_width(op.kind) && op.shift
            < kind_width(op.kind)
        &&& opcode == 0 ==> (signed_right(op.kind) <==> u == 0) && (unsigned_right(op.kind)
            <==> u == 1)
    }
    &&& (opcode == 0 && u == 0 && 1 <= immh < 8) ==> (r matches Some(op) && signed_right(op.kind))
    &&& (opcode == 0 && u == 1 && immh >= 1) ==> (r matches Some(op) && unsigned_right(op.kind))
    &&& (opcode == 0b01010 && u == 0 && immh >= 1) ==> (r matches Some(op) && !counts_down(
        op.kind,
    ))
}

/// The decoding of every shift-by-immediate instruction has the properties
/// that the encoding fixes (see `shift_imm_facts`).
pub proof fn law_shift_imm(insn: u32)
    ensures
        shift_imm_facts(insn, neon_shift_imm_spec(insn)),
{
}

} // verus!
