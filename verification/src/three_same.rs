//! Decoding of the AdvSIMD "three same" instructions: the operation by
//! element size, `U` bit and opcode.

use vstd::prelude::*;

verus! {

/// The operation of a three-same instruction. `And`, `Bic`, `Orr`, `Orn`,
/// `Eor`, `Bsl`, `Bit` and `Bif` are the bitwise operations on each half.
/// A variant named after a verified helper of `crate::neon` (`Add8` is
/// `helper_add8`, `Cmhs32` is `helper_cmhs32`, `Sshl64` is `helper_sshl64`,
/// ...) is carried out by it: on each half of `rn` and `rm` for an
/// element-wise operation; `Umaxp8`, `Uminp8`, `Addp8` and `Addp32` are
/// pairwise, combining the two halves of `rn` into the low half and those of
/// `rm` into the high half (the low halves of both into the low half when
/// `q` is clear); `Mla32` and `Mls32` also take the destination.
/// `Add64`, `Sub64`, `Cmeq64` and `Cmtst64` have no helper: wrapping
/// addition and subtraction, all ones on equality, all ones when the AND is
/// not zero.
#[derive(Clone, Copy, Debug, PartialEq, Eq, Structural)]
pub enum ThreeSameKind {
    And,
    Bic,
    Orr,
    Orn,
    Eor,
    Bsl,
    Bit,
    Bif,
    Add8,
    Sub8,
    Cmeq8,
    Cmtst8,
    Cmhs8,
    Cmhi8,
    Cmgt8,
    Umaxp8,
    Uminp8,
    Addp8,
    Cmeq16,
    Cmtst16,
    Add32,
    Sub32,
    Mul32,
    Smax32,
    Smin32,
    Umax32,
    Umin32,
    Cmeq32,
    Cmhs32,
    Cmgt32,
    Cmge32,
    Mla32,
    Mls32,
    Addp32,
    Cmtst32,
    Ushl32,
    Sshl32,
    Add64,
    Sub64,
    Cmeq64,
    Cmgt64,
    Cmtst64,
    Ushl64,
    Sshl64,
}

/// A decoded three-same instruction: on both halves when `q`, otherwise on
/// the low halves with the high half of `rd` zeroed.
#[derive(Clone, Copy, Debug, PartialEq, Eq, Structural)]
pub struct NeonThreeSameOp {
    pub kind: ThreeSameKind,
    pub q: bool,
    pub rd: u32,
    pub rn: u32,
    pub rm: u32,
}

/// The operation of a three-same instruction (`0 Q U 01110 size 1 Rm opcode
/// 1 Rn Rd`), or `None` for a combination the translator does not handle.
pub open spec fn neon_3same_spec(insn: u32) -> Option<NeonThreeSameOp> {
    let q = (insn >> 30u32) % 2;
    let u = (insn >> 29u32) % 2;
    let size = (insn >> 22u32) % 4;
    let rm = (insn >> 16u32) % 32;
    let opcode = (insn >> 11u32) % 32;
    let rn = (insn >> 5u32) % 32;
    let rd = insn % 32;
    if opcode == 0b00011 {
        match (u, size) {
            (0u32, 0b00u32) => Some(NeonThreeSameOp { kind: ThreeSameKind::And, q: q == 1, rd, rn, rm }),
            (0u32, 0b01u32) => Some(NeonThreeSameOp { kind: ThreeSameKind::Bic, q: q == 1, rd, rn, rm }),
            (0u32, 0b10u32) => Some(NeonThreeSameOp { kind: ThreeSameKind::Orr, q: q == 1, rd, rn, rm }),
            (0u32, 0b11u32) => Some(NeonThreeSameOp { kind: ThreeSameKind::Orn, q: q == 1, rd, rn, rm }),
            (1u32, 0b00u32) => Some(NeonThreeSameOp { kind: ThreeSameKind::Eor, q: q == 1, rd, rn, rm }),
            (1u32, 0b01u32) => Some(NeonThreeSameOp { kind: ThreeSameKind::Bsl, q: q == 1, rd, rn, rm }),
            (1u32, 0b10u32) => Some(NeonThreeSameOp { kind: ThreeSameKind::Bit, q: q == 1, rd, rn, rm }),
            (1u32, 0b11u32) => Some(NeonThreeSameOp { kind: ThreeSameKind::Bif, q: q == 1, rd, rn, rm }),
            _ => None,
        }
    } else if size == 0 {
        match (u, opcode) {
            (0u32, 0b10000u32) => Some(NeonThreeSameOp { kind: ThreeSameKind::Add8, q: q == 1, rd, rn, rm }),
            (1u32, 0b10000u32) => Some(NeonThreeSameOp { kind: ThreeSameKind::Sub8, q: q == 1, rd, rn, rm }),
            (1u32, 0b10001u32) => Some(NeonThreeSameOp { kind: ThreeSameKind::Cmeq8, q: q == 1, rd, rn, rm }),
            (0u32, 0b10001u32) => Some(NeonThreeSameOp { kind: ThreeSameKind::Cmtst8, q: q == 1, rd, rn, rm }),
            (1u32, 0b00111u32) => Some(NeonThreeSameOp { kind: ThreeSameKind::Cmhs8, q: q == 1, rd, rn, rm }),
            (1u32, 0b00110u32) => Some(NeonThreeSameOp { kind: ThreeSameKind::Cmhi8, q: q == 1, rd, rn, rm }),
            (0u32, 0b00110u32) => Some(NeonThreeSameOp { kind: ThreeSameKind::Cmgt8, q: q == 1, rd, rn, rm }),
            (1u32, 0b10100u32) => Some(NeonThreeSameOp { kind: ThreeSameKind::Umaxp8, q: q == 1, rd, rn, rm }),
            (1u32, 0b10101u32) => Some(NeonThreeSameOp { kind: ThreeSameKind::Uminp8, q: q == 1, rd, rn, rm }),
            (0u32, 0b10111u32) => Some(NeonThreeSameOp { kind: ThreeSameKind::Addp8, q: q == 1, rd, rn, rm }),
            _ => None,
        }
    } else if size == 1 {
        match (u, opcode) {
            (1u32, 0b10001u32) => Some(NeonThreeSameOp { kind: ThreeSameKind::Cmeq16, q: q == 1, rd, rn, rm }),
            (0u32, 0b10001u32) => Some(NeonThreeSameOp { kind: ThreeSameKind::Cmtst16, q: q == 1, rd, rn, rm }),
            _ => None,
        }
    } else if size == 2 {
        match (u, opcode) {
            (0u32, 0b10000u32) => Some(NeonThreeSameOp { kind: ThreeSameKind::Add32, q: q == 1, rd, rn, rm }),
            (1u32, 0b10000u32) => Some(NeonThreeSameOp { kind: ThreeSameKind::Sub32, q: q == 1, rd, rn, rm }),
            (0u32, 0b10011u32) => Some(NeonThreeSameOp { kind: ThreeSameKind::Mul32, q: q == 1, rd, rn, rm }),
            (0u32, 0b01100u32) => Some(NeonThreeSameOp { kind: ThreeSameKind::Smax32, q: q == 1, rd, rn, rm }),
            (0u32, 0b01101u32) => Some(NeonThreeSameOp { kind: ThreeSameKind::Smin32, q: q == 1, rd, rn, rm }),
            (1u32, 0b01100u32) => Some(NeonThreeSameOp { kind: ThreeSameKind::Umax32, q: q == 1, rd, rn, rm }),
            (1u32, 0b01101u32) => Some(NeonThreeSameOp { kind: ThreeSameKind::Umin32, q: q == 1, rd, rn, rm }),
            (1u32, 0b10001u32) => Some(NeonThreeSameOp { kind: ThreeSameKind::Cmeq32, q: q == 1, rd, rn, rm }),
            (1u32, 0b00111u32) => Some(NeonThreeSameOp { kind: ThreeSameKind::Cmhs32, q: q == 1, rd, rn, rm }),
            (0u32, 0b00110u32) => Some(NeonThreeSameOp { kind: ThreeSameKind::Cmgt32, q: q == 1, rd, rn, rm }),
            (0u32, 0b00111u32) => Some(NeonThreeSameOp { kind: ThreeSameKind::Cmge32, q: q == 1, rd, rn, rm }),
            (0u32, 0b10010u32) => Some(NeonThreeSameOp { kind: ThreeSameKind::Mla32, q: q == 1, rd, rn, rm }),
            (1u32, 0b10010u32) => Some(NeonThreeSameOp { kind: ThreeSameKind::Mls32, q: q == 1, rd, rn, rm }),
            (0u32, 0b10111u32) => Some(NeonThreeSameOp { kind: ThreeSameKind::Addp32, q: q == 1, rd, rn, rm }),
            (0u32, 0b10001u32) => Some(NeonThreeSameOp { kind: ThreeSameKind::Cmtst32, q: q == 1, rd, rn, rm }),
            (1u32, 0b01000u32) => Some(NeonThreeSameOp { kind: ThreeSameKind::Ushl32, q: q == 1, rd, rn, rm }),
            (0u32, 0b01000u32) => Some(NeonThreeSameOp { kind: ThreeSameKind::Sshl32, q: q == 1, rd, rn, rm }),
            _ => None,
        }
    } else {
        match (u, opcode) {
            (0u32, 0b10000u32) => Some(NeonThreeSameOp { kind: ThreeSameKind::Add64, q: q == 1, rd, rn, rm }),
            (1u32, 0b10000u32) => Some(NeonThreeSameOp { kind: ThreeSameKind::Sub64, q: q == 1, rd, rn, rm }),
            (1u32, 0b10001u32) => Some(NeonThreeSameOp { kind: ThreeSameKind::Cmeq64, q: q == 1, rd, rn, rm }),
            (0u32, 0b00110u32) => Some(NeonThreeSameOp { kind: ThreeSameKind::Cmgt64, q: q == 1, rd, rn, rm }),
            (0u32, 0b10001u32) => Some(NeonThreeSameOp { kind: ThreeSameKind::Cmtst64, q: q == 1, rd, rn, rm }),
            (1u32, 0b01000u32) => Some(NeonThreeSameOp { kind: ThreeSameKind::Ushl64, q: q == 1, rd, rn, rm }),
            (0u32, 0b01000u32) => Some(NeonThreeSameOp { kind: ThreeSameKind::Sshl64, q: q == 1, rd, rn, rm }),
            _ => None,
        }
    }
}

/// Decodes a three-same instruction.
pub fn decode_neon_3same(insn: u32) -> (r: Option<NeonThreeSameOp>)
    ensures
        r == neon_3same_spec(insn),
        three_same_facts(insn, r),
{
    proof {
        law_three_same(insn);
    }
    let q = (insn >> 30u32) % 2;
    let u = (insn >> 29u32) % 2;
    let size = (insn >> 22u32) % 4;
    let rm = (insn >> 16u32) % 32;
    let opcode = (insn >> 11u32) % 32;
    let rn = (insn >> 5u32) % 32;
    let rd = insn % 32;
    if opcode == 0b00011 {
        match (u, size) {
            (0u32, 0b00u32) => Some(NeonThreeSameOp { kind: ThreeSameKind::And, q: q == 1, rd, rn, rm }),
            (0u32, 0b01u32) => Some(NeonThreeSameOp { kind: ThreeSameKind::Bic, q: q == 1, rd, rn, rm }),
            (0u32, 0b10u32) => Some(NeonThreeSameOp { kind: ThreeSameKind::Orr, q: q == 1, rd, rn, rm }),
            (0u32, 0b11u32) => Some(NeonThreeSameOp { kind: ThreeSameKind::Orn, q: q == 1, rd, rn, rm }),
            (1u32, 0b00u32) => Some(NeonThreeSameOp { kind: ThreeSameKind::Eor, q: q == 1, rd, rn, rm }),
            (1u32, 0b01u32) => Some(NeonThreeSameOp { kind: ThreeSameKind::Bsl, q: q == 1, rd, rn, rm }),
            (1u32, 0b10u32) => Some(NeonThreeSameOp { kind: ThreeSameKind::Bit, q: q == 1, rd, rn, rm }),
            (1u32, 0b11u32) => Some(NeonThreeSameOp { kind: ThreeSameKind::Bif, q: q == 1, rd, rn, rm }),
            _ => None,
        }
    } else if size == 0 {
        match (u, opcode) {
            (0u32, 0b10000u32) => Some(NeonThreeSameOp { kind: ThreeSameKind::Add8, q: q == 1, rd, rn, rm }),
            (1u32, 0b10000u32) => Some(NeonThreeSameOp { kind: ThreeSameKind::Sub8, q: q == 1, rd, rn, rm }),
            (1u32, 0b10001u32) => Some(NeonThreeSameOp { kind: ThreeSameKind::Cmeq8, q: q == 1, rd, rn, rm }),
            (0u32, 0b10001u32) => Some(NeonThreeSameOp { kind: ThreeSameKind::Cmtst8, q: q == 1, rd, rn, rm }),
            (1u32, 0b00111u32) => Some(NeonThreeSameOp { kind: ThreeSameKind::Cmhs8, q: q == 1, rd, rn, rm }),
            (1u32, 0b00110u32) => Some(NeonThreeSameOp { kind: ThreeSameKind::Cmhi8, q: q == 1, rd, rn, rm }),
            (0u32, 0b00110u32) => Some(NeonThreeSameOp { kind: ThreeSameKind::Cmgt8, q: q == 1, rd, rn, rm }),
            (1u32, 0b10100u32) => Some(NeonThreeSameOp { kind: ThreeSameKind::Umaxp8, q: q == 1, rd, rn, rm }),
            (1u32, 0b10101u32) => Some(NeonThreeSameOp { kind: ThreeSameKind::Uminp8, q: q == 1, rd, rn, rm }),
            (0u32, 0b10111u32) => Some(NeonThreeSameOp { kind: ThreeSameKind::Addp8, q: q == 1, rd, rn, rm }),
            _ => None,
        }
    } else if size == 1 {
        match (u, opcode) {
            (1u32, 0b10001u32) => Some(NeonThreeSameOp { kind: ThreeSameKind::Cmeq16, q: q == 1, rd, rn, rm }),
            (0u32, 0b10001u32) => Some(NeonThreeSameOp { kind: ThreeSameKind::Cmtst16, q: q == 1, rd, rn, rm }),
            _ => None,
        }
    } else if size == 2 {
        match (u, opcode) {
            (0u32, 0b10000u32) => Some(NeonThreeSameOp { kind: ThreeSameKind::Add32, q: q == 1, rd, rn, rm }),
            (1u32, 0b10000u32) => Some(NeonThreeSameOp { kind: ThreeSameKind::Sub32, q: q == 1, rd, rn, rm }),
            (0u32, 0b10011u32) => Some(NeonThreeSameOp { kind: ThreeSameKind::Mul32, q: q == 1, rd, rn, rm }),
            (0u32, 0b01100u32) => Some(NeonThreeSameOp { kind: ThreeSameKind::Smax32, q: q == 1, rd, rn, rm }),
            (0u32, 0b01101u32) => Some(NeonThreeSameOp { kind: ThreeSameKind::Smin32, q: q == 1, rd, rn, rm }),
            (1u32, 0b01100u32) => Some(NeonThreeSameOp { kind: ThreeSameKind::Umax32, q: q == 1, rd, rn, rm }),
            (1u32, 0b01101u32) => Some(NeonThreeSameOp { kind: ThreeSameKind::Umin32, q: q == 1, rd, rn, rm }),
            (1u32, 0b10001u32) => Some(NeonThreeSameOp { kind: ThreeSameKind::Cmeq32, q: q == 1, rd, rn, rm }),
            (1u32, 0b00111u32) => Some(NeonThreeSameOp { kind: ThreeSameKind::Cmhs32, q: q == 1, rd, rn, rm }),
            (0u32, 0b00110u32) => Some(NeonThreeSameOp { kind: ThreeSameKind::Cmgt32, q: q == 1, rd, rn, rm }),
            (0u32, 0b00111u32) => Some(NeonThreeSameOp { kind: ThreeSameKind::Cmge32, q: q == 1, rd, rn, rm }),
            (0u32, 0b10010u32) => Some(NeonThreeSameOp { kind: ThreeSameKind::Mla32, q: q == 1, rd, rn, rm }),
            (1u32, 0b10010u32) => Some(NeonThreeSameOp { kind: ThreeSameKind::Mls32, q: q == 1, rd, rn, rm }),
            (0u32, 0b10111u32) => Some(NeonThreeSameOp { kind: ThreeSameKind::Addp32, q: q == 1, rd, rn, rm }),
            (0u32, 0b10001u32) => Some(NeonThreeSameOp { kind: ThreeSameKind::Cmtst32, q: q == 1, rd, rn, rm }),
            (1u32, 0b01000u32) => Some(NeonThreeSameOp { kind: ThreeSameKind::Ushl32, q: q == 1, rd, rn, rm }),
            (0u32, 0b01000u32) => Some(NeonThreeSameOp { kind: ThreeSameKind::Sshl32, q: q == 1, rd, rn, rm }),
            _ => None,
        }
    } else {
        match (u, opcode) {
            (0u32, 0b10000u32) => Some(NeonThreeSameOp { kind: ThreeSameKind::Add64, q: q == 1, rd, rn, rm }),
            (1u32, 0b10000u32) => Some(NeonThreeSameOp { kind: ThreeSameKind::Sub64, q: q == 1, rd, rn, rm }),
            (1u32, 0b10001u32) => Some(NeonThreeSameOp { kind: ThreeSameKind::Cmeq64, q: q == 1, rd, rn, rm }),
            (0u32, 0b00110u32) => Some(NeonThreeSameOp { kind: ThreeSameKind::Cmgt64, q: q == 1, rd, rn, rm }),
            (0u32, 0b10001u32) => Some(NeonThreeSameOp { kind: ThreeSameKind::Cmtst64, q: q == 1, rd, rn, rm }),
            (1u32, 0b01000u32) => Some(NeonThreeSameOp { kind: ThreeSameKind::Ushl64, q: q == 1, rd, rn, rm }),
            (0u32, 0b01000u32) => Some(NeonThreeSameOp { kind: ThreeSameKind::Sshl64, q: q == 1, rd, rn, rm }),
            _ => None,
        }
    }
}

/// Element width of an element-wise operation (0 for the bitwise ones).
pub open spec fn ts_width(k: ThreeSameKind) -> nat {
    match k {
        ThreeSameKind::Add8 | ThreeSameKind::Sub8 | ThreeSameKind::Cmeq8 | ThreeSameKind::Cmtst8
        | ThreeSameKind::Cmhs8 | ThreeSameKind::Cmhi8 | ThreeSameKind::Cmgt8
        | ThreeSameKind::Umaxp8 | ThreeSameKind::Uminp8 | ThreeSameKind::Addp8 => 8,
        ThreeSameKind::Cmeq16 | ThreeSameKind::Cmtst16 => 16,
        ThreeSameKind::Add32 | ThreeSameKind::Sub32 | ThreeSameKind::Mul32
        | ThreeSameKind::Smax32 | ThreeSameKind::Smin32 | ThreeSameKind::Umax32
        | ThreeSameKind::Umin32 | ThreeSameKind::Cmeq32 | ThreeSameKind::Cmhs32
        | ThreeSameKind::Cmgt32 | ThreeSameKind::Cmge32 | ThreeSameKind::Mla32
        | ThreeSameKind::Mls32 | ThreeSameKind::Addp32 | ThreeSameKind::Cmtst32
        | ThreeSameKind::Ushl32 | ThreeSameKind::Sshl32 => 32,
        ThreeSameKind::Add64 | ThreeSameKind::Sub64 | ThreeSameKind::Cmeq64
        | ThreeSameKind::Cmgt64 | ThreeSameKind::Cmtst64 | ThreeSameKind::Ushl64
        | ThreeSameKind::Sshl64 => 64,
        _ => 0,
    }
}

/// What the A64 three-same table fixes, stated on the fields: registers and
/// `Q` come from their fields; opcode 00011 is the bitwise group by `U` and
/// size (AND, BIC, ORR, ORN, EOR, BSL, BIT, BIF); otherwise the element
/// width is `8 << size` and `U` picks between the two members of each
/// opcode: ADD/SUB (10000), CMTST/CMEQ (10001), CMGT/CMHI (00110, signed
/// and unsigned greater), CMGE/CMHS (00111), SMAX/UMAX (01100), SMIN/UMIN
/// (01101), SSHL/USHL (01000), MLA/MLS (10010); ADD and SUB exist for bytes,
/// words and doublewords.
pub open spec fn three_same_facts(insn: u32, r: Option<NeonThreeSameOp>) -> bool {
    let q = (insn >> 30u32) % 2;
    let u = (insn >> 29u32) % 2;
    let size = (insn >> 22u32) % 4;
    let opcode = (insn >> 11u32) % 32;
    &&& r matches Some(op) ==> op.rd == insn % 32 && op.rn == (insn >> 5u32) % 32 && op.rm == (insn
        >> 16u32) % 32 && op.q == (q == 1)
    &&& opcode == 0b00011 ==> (r matches Some(op) && op.kind == (if u == 0 {
        if size == 0 {
            ThreeSameKind::And
        } else if size == 1 {
            ThreeSameKind::Bic
        } else if size == 2 {
            ThreeSameKind::Orr
        } else {
            ThreeSameKind::Orn
        }
    } else {
        if size == 0 {
            ThreeSameKind::Eor
        } else if size == 1 {
            ThreeSameKind::Bsl
        } else if size == 2 {
            ThreeSameKind::Bit
        } else {
            ThreeSameKind::Bif
        }
    }))
    &&& r matches Some(op) ==> (opcode != 0b00011 ==> ts_width(op.kind) == (if size == 0 {
        8nat
    } else if size == 1 {
        16nat
    } else if size == 2 {
        32nat
    } else {
        64nat
    }))
    &&& r matches Some(op) ==> {
        &&& opcode == 0b10000 ==> (u == 0 <==> (op.kind is Add8 || op.kind is Add32 || op.kind is Add64))
            && (u == 1 <==> (op.kind is Sub8 || op.kind is Sub32 || op.kind is Sub64))
        &&& opcode == 0b10001 ==> (u == 0 <==> (op.kind is Cmtst8 || op.kind is Cmtst16
            || op.kind is Cmtst32 || op.kind is Cmtst64)) && (u == 1 <==> (op.kind is Cmeq8
            || op.kind is Cmeq16 || op.kind is Cmeq32 || op.kind is Cmeq64))
        &&& opcode == 0b00110 ==> (u == 0 <==> (op.kind is Cmgt8 || op.kind is Cmgt32
            || op.kind is Cmgt64)) && (u == 1 <==> op.kind is Cmhi8)
        &&& opcode == 0b00111 ==> (u == 0 <==> op.kind is Cmge32) && (u == 1 <==> (op.kind is Cmhs8
            || op.kind is Cmhs32))
        &&& opcode == 0b01100 ==> (u == 0 <==> op.kind is Smax32) && (u == 1 <==> op.kind is Umax32)
        &&& opcode == 0b01101 ==> (u == 0 <==> op.kind is Smin32) && (u == 1 <==> op.kind is Umin32)
        &&& opcode == 0b01000 ==> (u == 0 <==> (op.kind is Sshl32 || op.kind is Sshl64)) && (u == 1
            <==> (op.kind is Ushl32 || op.kind is Ushl64))
        &&& opcode == 0b10010 ==> (u == 0 <==> op.kind is Mla32) && (u == 1 <==> op.kind is Mls32)
    }
    &&& (opcode == 0b10000 && size != 1) ==> r is Some
}

/// Every three-same instruction decodes by the A64 table (see
/// `three_same_facts`).
pub proof fn law_three_same(insn: u32)
    ensures
        three_same_facts(insn, neon_3same_spec(insn)),
{
}

} // verus!
