//! AArch64 guest CPU state for user-mode emulation, its field layout, and
//! the lazily evaluated NZCV condition flags.

use vstd::prelude::*;

verus! {

/// Number of general-purpose registers (X0-X30). SP is a separate register.
pub const NUM_XREGS: usize = 31;

/// Number of SIMD/FP registers (V0-V31), stored as lo/hi u64 pairs.
pub const NUM_VREGS: usize = 32;

/// Lazy NZCV operation kinds. With `CC_OP_EAGER` the packed NZCV value is
/// held in `cc_a`; otherwise the flags are computed from the operands.
pub const CC_OP_EAGER: u64 = 0;
pub const CC_OP_ADD32: u64 = 1;
pub const CC_OP_ADD64: u64 = 2;
pub const CC_OP_SUB32: u64 = 3;
pub const CC_OP_SUB64: u64 = 4;
pub const CC_OP_LOGIC32: u64 = 5;
pub const CC_OP_LOGIC64: u64 = 6;

/// Byte offset of the `pc` field.
pub const PC_OFFSET: i64 = 248;
/// Byte offset of the `sp` field.
pub const SP_OFFSET: i64 = 256;
/// Byte offset of the `guest_base` field.
pub const GUEST_BASE_OFFSET: i64 = 264;
/// Byte offset of the `load_bias` field.
pub const LOAD_BIAS_OFFSET: i64 = 272;
/// Byte offset of the `cc_op` field.
pub const CC_OP_OFFSET: i64 = 280;
/// Byte offset of the `cc_a` field.
pub const CC_A_OFFSET: i64 = 288;
/// Byte offset of the `cc_b` field.
pub const CC_B_OFFSET: i64 = 296;
/// Byte offset of the `cc_result` field.
pub const CC_RESULT_OFFSET: i64 = 304;
/// Byte offset of the `fpcr` field.
pub const FPCR_OFFSET: i64 = 312;
/// Byte offset of the `fpsr` field.
pub const FPSR_OFFSET: i64 = 320;
/// Byte offset of the `tpidr_el0` field.
pub const TPIDR_EL0_OFFSET: i64 = 328;
/// Byte offset of the first vector register (low half of V0).
pub const VREGS_OFFSET: i64 = 336;

/// AArch64 CPU architectural state (user mode), laid out as the JIT expects.
pub struct Aarch64Cpu {
    /// General-purpose registers X0-X30 (X30 = LR).
    pub xregs: [u64; 31],
    pub pc: u64,
    pub sp: u64,
    /// Host address of guest memory.
    pub guest_base: u64,
    /// Guest VA of the executable PT_LOAD segment.
    pub load_bias: u64,
    /// Lazy NZCV: operation kind (`CC_OP_*`).
    pub cc_op: u64,
    /// Lazy NZCV: first operand, or the packed NZCV value when eager.
    pub cc_a: u64,
    /// Lazy NZCV: second operand.
    pub cc_b: u64,
    /// Lazy NZCV: result of the operation.
    pub cc_result: u64,
    pub fpcr: u64,
    pub fpsr: u64,
    /// Thread pointer (TPIDR_EL0).
    pub tpidr_el0: u64,
    /// V0-V31 as (lo, hi) u64 pairs.
    pub vregs: [u64; 64],
}

/// Byte offset of `xregs[i]` in the CPU structure: `i * 8`, as an `i64`.
pub fn xreg_offset(i: usize) -> (r: i64)
    requires
        i * 8 <= usize::MAX,
    ensures
        r == (i * 8) as i64,
        i * 8 <= i64::MAX ==> r == i * 8,
{
    (i * 8) as i64
}

/// Byte offset of the low half of vector register `i`: `336 + 16 * i`.
pub fn vreg_lo_offset(i: usize) -> (r: i64)
    requires
        336 + 16 * i <= i64::MAX,
    ensures
        r == 336 + 16 * i,
{
    VREGS_OFFSET + (i as i64) * 16
}

/// Byte offset of the high half of vector register `i`: `344 + 16 * i`.
pub fn vreg_hi_offset(i: usize) -> (r: i64)
    requires
        344 + 16 * i <= i64::MAX,
    ensures
        r == 344 + 16 * i,
{
    VREGS_OFFSET + (i as i64) * 16 + 8
}

impl Aarch64Cpu {
    /// All registers zero, flags in eager mode with a zero packed NZCV.
    pub open spec fn is_reset(&self) -> bool {
        &&& forall|i: int| 0 <= i < 31 ==> self.xregs[i] == 0
        &&& forall|i: int| 0 <= i < 64 ==> self.vregs[i] == 0
        &&& self.pc == 0 && self.sp == 0 && self.guest_base == 0 && self.load_bias == 0
        &&& self.cc_op == CC_OP_EAGER && self.cc_a == 0 && self.cc_b == 0 && self.cc_result == 0
        &&& self.fpcr == 0 && self.fpsr == 0 && self.tpidr_el0 == 0
    }

    pub fn new() -> (cpu: Self)
        ensures
            cpu.is_reset(),
    {
        Aarch64Cpu {
            xregs: [0u64; 31],
            pc: 0,
            sp: 0,
            guest_base: 0,
            load_bias: 0,
            cc_op: CC_OP_EAGER,
            cc_a: 0,
            cc_b: 0,
            cc_result: 0,
            fpcr: 0,
            fpsr: 0,
            tpidr_el0: 0,
            vregs: [0u64; 64],
        }
    }
}

impl Default for Aarch64Cpu {
    fn default() -> (cpu: Self)
        ensures
            cpu.is_reset(),
    {
        Self::new()
    }
}

// ---------------------------------------------------------------------
// Flag model
// ---------------------------------------------------------------------

/// The packed NZCV word: N in bit 31, Z in bit 30, C in bit 29, V in bit 28.
pub open spec fn pack_nzcv(n: bool, z: bool, c: bool, v: bool) -> u64 {
    ((if n { 0x8000_0000int } else { 0int }) + (if z { 0x4000_0000int } else { 0int }) + (if c {
        0x2000_0000int
    } else {
        0int
    }) + (if v { 0x1000_0000int } else { 0int })) as u64
}

/// Whether an unsigned value of `width` bits has its sign bit set.
pub open spec fn sign_bit(x: int, width: nat) -> bool {
    x >= pow2(width) / 2
}

/// `2^width` for the two operand widths used here.
pub open spec fn pow2(width: nat) -> int {
    if width == 32 {
        0x1_0000_0000
    } else {
        0x1_0000_0000_0000_0000
    }
}

/// Operand width selected by the `sf` bit.
pub open spec fn width_of(sf: bool) -> nat {
    if sf {
        64
    } else {
        32
    }
}

/// `x` reduced to the operand width.
pub open spec fn low_bits(x: u64, sf: bool) -> int {
    if sf {
        x as int
    } else {
        x as int % 0x1_0000_0000
    }
}

/// Flags after an addition `a + b = result` (operands truncated to the width).
pub open spec fn nzcv_add_spec(a: u64, b: u64, result: u64, sf: bool) -> u64 {
    let w = width_of(sf);
    let (a, b, r) = (low_bits(a, sf), low_bits(b, sf), low_bits(result, sf));
    pack_nzcv(
        sign_bit(r, w),
        r == 0,
        r < a,
        sign_bit(a, w) == sign_bit(b, w) && sign_bit(r, w) != sign_bit(a, w),
    )
}

/// Flags after a subtraction `a - b = result` (operands truncated to the width).
pub open spec fn nzcv_sub_spec(a: u64, b: u64, result: u64, sf: bool) -> u64 {
    let w = width_of(sf);
    let (a, b, r) = (low_bits(a, sf), low_bits(b, sf), low_bits(result, sf));
    pack_nzcv(
        sign_bit(r, w),
        r == 0,
        a >= b,
        sign_bit(a, w) != sign_bit(b, w) && sign_bit(r, w) != sign_bit(a, w),
    )
}

/// Flags after a logical operation: N and Z from the result, C and V clear.
pub open spec fn nzcv_logic_spec(result: u64, sf: bool) -> u64 {
    let r = low_bits(result, sf);
    pack_nzcv(sign_bit(r, width_of(sf)), r == 0, false, false)
}

/// Flag N of a packed NZCV word.
pub open spec fn flag_n(nzcv: u64) -> bool {
    (nzcv >> 31u64) & 1 == 1
}

/// Flag Z of a packed NZCV word.
pub open spec fn flag_z(nzcv: u64) -> bool {
    (nzcv >> 30u64) & 1 == 1
}

/// Flag C of a packed NZCV word.
pub open spec fn flag_c(nzcv: u64) -> bool {
    (nzcv >> 29u64) & 1 == 1
}

/// Flag V of a packed NZCV word.
pub open spec fn flag_v(nzcv: u64) -> bool {
    (nzcv >> 28u64) & 1 == 1
}

/// A64 `ConditionHolds` for a 4-bit condition code. Codes 14 (AL) and 15 (NV)
/// always hold. A wider `cond` selects no base condition: the base result is
/// false and odd codes invert it.
pub open spec fn cond_holds(nzcv: u64, cond: u32) -> bool {
    let (n, z, c, v) = (flag_n(nzcv), flag_z(nzcv), flag_c(nzcv), flag_v(nzcv));
    let base = cond / 2;
    let result = if base == 0 {
        z
    } else if base == 1 {
        c
    } else if base == 2 {
        n
    } else if base == 3 {
        v
    } else if base == 4 {
        c && !z
    } else if base == 5 {
        n == v
    } else if base == 6 {
        n == v && !z
    } else if base == 7 {
        true
    } else {
        false
    };
    if cond % 2 == 1 && cond != 15 {
        !result
    } else {
        result
    }
}

/// Packed NZCV described by a lazy flag state.
pub open spec fn lazy_nzcv_spec(cc_op: u64, cc_a: u64, cc_b: u64, cc_result: u64) -> u64 {
    if cc_op == CC_OP_EAGER {
        cc_a
    } else if cc_op == CC_OP_ADD32 {
        nzcv_add_spec(cc_a, cc_b, cc_result, false)
    } else if cc_op == CC_OP_ADD64 {
        nzcv_add_spec(cc_a, cc_b, cc_result, true)
    } else if cc_op == CC_OP_SUB32 {
        nzcv_sub_spec(cc_a, cc_b, cc_result, false)
    } else if cc_op == CC_OP_SUB64 {
        nzcv_sub_spec(cc_a, cc_b, cc_result, true)
    } else if cc_op == CC_OP_LOGIC32 {
        nzcv_logic_spec(cc_result, false)
    } else if cc_op == CC_OP_LOGIC64 {
        nzcv_logic_spec(cc_result, true)
    } else {
        0
    }
}

proof fn lemma_pack(n: u64, z: u64, c: u64, v: u64)
    requires
        n <= 1,
        z <= 1,
        c <= 1,
        v <= 1,
    ensures
        (n << 31u64) | (z << 30u64) | (c << 29u64) | (v << 28u64) == pack_nzcv(
            n == 1,
            z == 1,
            c == 1,
            v == 1,
        ),
        (n << 31u64) | (z << 30u64) == pack_nzcv(n == 1, z == 1, false, false),
{
    let p = (n << 31u64) | (z << 30u64) | (c << 29u64) | (v << 28u64);
    let q = (n << 31u64) | (z << 30u64);
    assert(p == n * 0x8000_0000 + z * 0x4000_0000 + c * 0x2000_0000 + v * 0x1000_0000 && q == n
        * 0x8000_0000 + z * 0x4000_0000) by (bit_vector)
        requires
            n <= 1,
            z <= 1,
            c <= 1,
            v <= 1,
            p == (n << 31u64) | (z << 30u64) | (c << 29u64) | (v << 28u64),
            q == (n << 31u64) | (z << 30u64),
    ;
}

/// Sign bit and truncation of one value, at both operand widths.
proof fn lemma_value_bits(x: u64)
    by (bit_vector)
    ensures
        (x >> 63u64) & 1 <= 1,
        ((x >> 63u64) & 1 == 1) == (x >= 0x8000_0000_0000_0000),
        x as u32 == x % 0x1_0000_0000,
        (((x as u32) >> 31u32) & 1) as u64 <= 1,
        ((((x as u32) >> 31u32) & 1) as u64 == 1) == (x as u32 >= 0x8000_0000),
{
}

/// Overflow bits of an addition and a subtraction, at both operand widths.
proof fn lemma_overflow_bits(a: u64, b: u64, r: u64)
    by (bit_vector)
    ensures
        ((!(a ^ b)) & (a ^ r)) >> 63u64 <= 1,
        (((!(a ^ b)) & (a ^ r)) >> 63u64 == 1) == ((a >= 0x8000_0000_0000_0000) == (b
            >= 0x8000_0000_0000_0000) && (r >= 0x8000_0000_0000_0000) != (a
            >= 0x8000_0000_0000_0000)),
        ((a ^ b) & (a ^ r)) >> 63u64 <= 1,
        (((a ^ b) & (a ^ r)) >> 63u64 == 1) == ((a >= 0x8000_0000_0000_0000) != (b
            >= 0x8000_0000_0000_0000) && (r >= 0x8000_0000_0000_0000) != (a
            >= 0x8000_0000_0000_0000)),
        (((!((a as u32) ^ (b as u32))) & ((a as u32) ^ (r as u32))) >> 31u32) as u64 <= 1,
        ((((!((a as u32) ^ (b as u32))) & ((a as u32) ^ (r as u32))) >> 31u32) as u64 == 1) == ((
        a as u32 >= 0x8000_0000) == (b as u32 >= 0x8000_0000) && (r as u32 >= 0x8000_0000) != (a
            as u32 >= 0x8000_0000)),
        ((((a as u32) ^ (b as u32)) & ((a as u32) ^ (r as u32))) >> 31u32) as u64 <= 1,
        (((((a as u32) ^ (b as u32)) & ((a as u32) ^ (r as u32))) >> 31u32) as u64 == 1) == ((a
            as u32 >= 0x8000_0000) != (b as u32 >= 0x8000_0000) && (r as u32 >= 0x8000_0000) != (a
            as u32 >= 0x8000_0000)),
{
}

/// Flags after an addition. `sf` selects 64-bit (true) or 32-bit operands.
pub fn compute_nzcv_add(a: u64, b: u64, result: u64, sf: bool) -> (r: u64)
    ensures
        r == nzcv_add_spec(a, b, result, sf),
{
    proof {
        lemma_value_bits(a);
        lemma_value_bits(b);
        lemma_value_bits(result);
        lemma_overflow_bits(a, b, result);
    }
    if sf {
        let n = (result >> 63) & 1;
        let z = if result == 0 { 1u64 } else { 0 };
        let c = if result < a { 1u64 } else { 0 };
        let xor_ab = a ^ b;
        let xor_ar = a ^ result;
        let v = ((!xor_ab) & xor_ar) >> 63;
        proof {
            lemma_pack(n, z, c, v);
        }
        (n << 31) | (z << 30) | (c << 29) | (v << 28)
    } else {
        let a32 = a as u32;
        let b32 = b as u32;
        let r32 = result as u32;
        let n = ((r32 >> 31) & 1) as u64;
        let z = if r32 == 0 { 1u64 } else { 0 };
        let c = if r32 < a32 { 1u64 } else { 0 };
        let xor_ab = a32 ^ b32;
        let xor_ar = a32 ^ r32;
        let v = (((!xor_ab) & xor_ar) >> 31) as u64;
        proof {
            lemma_pack(n, z, c, v);
        }
        (n << 31) | (z << 30) | (c << 29) | (v << 28)
    }
}

/// Flags after a subtraction. `sf` selects 64-bit (true) or 32-bit operands.
pub fn compute_nzcv_sub(a: u64, b: u64, result: u64, sf: bool) -> (r: u64)
    ensures
        r == nzcv_sub_spec(a, b, result, sf),
{
    proof {
        lemma_value_bits(a);
        lemma_value_bits(b);
        lemma_value_bits(result);
        lemma_overflow_bits(a, b, result);
    }
    if sf {
        let n = (result >> 63) & 1;
        let z = if result == 0 { 1u64 } else { 0 };
        let c = if a >= b { 1u64 } else { 0 };
        let xor_ab = a ^ b;
        let xor_ar = a ^ result;
        let v = (xor_ab & xor_ar) >> 63;
        proof {
            lemma_pack(n, z, c, v);
        }
        (n << 31) | (z << 30) | (c << 29) | (v << 28)
    } else {
        let a32 = a as u32;
        let b32 = b as u32;
        let r32 = result as u32;
        let n = ((r32 >> 31) & 1) as u64;
        let z = if r32 == 0 { 1u64 } else { 0 };
        let c = if a32 >= b32 { 1u64 } else { 0 };
        let xor_ab = a32 ^ b32;
        let xor_ar = a32 ^ r32;
        let v = ((xor_ab & xor_ar) >> 31) as u64;
        proof {
            lemma_pack(n, z, c, v);
        }
        (n << 31) | (z << 30) | (c << 29) | (v << 28)
    }
}

/// Flags after a logical operation (C and V clear).
pub fn compute_nzcv_logic(result: u64, sf: bool) -> (r: u64)
    ensures
        r == nzcv_logic_spec(result, sf),
{
    proof {
        lemma_value_bits(result);
    }
    if sf {
        let n = (result >> 63) & 1;
        let z = if result == 0 { 1u64 } else { 0 };
        proof {
            lemma_pack(n, z, 0, 0);
        }
        (n << 31) | (z << 30)
    } else {
        let r32 = result as u32;
        let n = ((r32 >> 31) & 1) as u64;
        let z = if r32 == 0 { 1u64 } else { 0 };
        proof {
            lemma_pack(n, z, 0, 0);
        }
        (n << 31) | (z << 30)
    }
}

/// Flag bits of a packed word and the parts of a condition code.
proof fn lemma_cond_bits(nzcv: u64, cond: u32)
    by (bit_vector)
    ensures
        (nzcv >> 31u64) & 1 <= 1,
        (nzcv >> 30u64) & 1 <= 1,
        (nzcv >> 29u64) & 1 <= 1,
        (nzcv >> 28u64) & 1 <= 1,
        cond >> 1u32 == cond / 2,
        (cond & 1 != 0) == (cond % 2 == 1),
{
}

/// Evaluates an A64 condition code against a packed NZCV word: 1 if it
/// holds, else 0.
pub fn eval_cond_from_packed(nzcv: u64, cond: u32) -> (r: u64)
    ensures
        r == if cond_holds(nzcv, cond) {
            1u64
        } else {
            0u64
        },
        ({
            let n = (nzcv >> 31u64) & 1 == 1;
            let z = (nzcv >> 30u64) & 1 == 1;
            let c = (nzcv >> 29u64) & 1 == 1;
            let v = (nzcv >> 28u64) & 1 == 1;
            cond < 16 ==> (r == 1) == (if cond == 0 {
                z
            } else if cond == 1 {
                !z
            } else if cond == 2 {
                c
            } else if cond == 3 {
                !c
            } else if cond == 4 {
                n
            } else if cond == 5 {
                !n
            } else if cond == 6 {
                v
            } else if cond == 7 {
                !v
            } else if cond == 8 {
                c && !z
            } else if cond == 9 {
                !c || z
            } else if cond == 10 {
                n == v
            } else if cond == 11 {
                n != v
            } else if cond == 12 {
                !z && n == v
            } else if cond == 13 {
                z || n != v
            } else {
                true
            })
        }),
{
    let n = (nzcv >> 31) & 1;
    let z = (nzcv >> 30) & 1;
    let c = (nzcv >> 29) & 1;
    let v = (nzcv >> 28) & 1;
    proof {
        lemma_cond_bits(nzcv, cond);
        lemma_01_ops(z, z);
        lemma_01_ops(c, z ^ 1);
        lemma_01_ops(n, v);
        lemma_01_ops((n ^ v) ^ 1, z ^ 1);
    }
    let base_cond = cond >> 1;
    let result = match base_cond {
        0 => z,
        1 => c,
        2 => n,
        3 => v,
        4 => c & (z ^ 1),
        5 => (n ^ v) ^ 1,
        6 => ((n ^ v) ^ 1) & (z ^ 1),
        7 => 1,
        _ => 0,
    };
    assert(result <= 1);
    proof {
        lemma_01_ops(result, 1);
    }
    if (cond & 1) != 0 && cond != 0xf {
        result ^ 1
    } else {
        result
    }
}

/// Boolean facts about `&` and `^` on values in {0, 1}.
proof fn lemma_01_ops(x: u64, y: u64)
    requires
        x <= 1,
        y <= 1,
    ensures
        (x ^ 1) <= 1,
        (x ^ 1 == 1) == (x == 0),
        (x & y) <= 1,
        (x & y == 1) == (x == 1 && y == 1),
        (x ^ y) <= 1,
        (x ^ y == 1) == (x != y),
        ((x ^ y) ^ 1) <= 1,
        ((x ^ y) ^ 1 == 1) == (x == y),
{
    assert((x ^ 1) <= 1 && (x ^ 1 == 1) == (x == 0) && (x & y) <= 1 && (x & y == 1) == (x == 1
        && y == 1) && (x ^ y) <= 1 && (x ^ y == 1) == (x != y) && ((x ^ y) ^ 1) <= 1 && ((x ^ y)
        ^ 1 == 1) == (x == y)) by (bit_vector)
        requires
            x <= 1,
            y <= 1,
    ;
}


/// The flag-setting operation last generated in a TB, as the translator
/// tracks it while translating (`sf`: 64-bit operands).
#[derive(Clone, Copy, Debug, PartialEq, Eq, Structural)]
pub enum LazyNzcvKind {
    /// Flags of an addition.
    Add { sf: bool },
    /// Flags of a subtraction.
    Sub { sf: bool },
    /// Flags of a logical operation (C and V clear).
    Logic { sf: bool },
}

/// The `cc_op` value stored for an operation kind.
pub open spec fn cc_op_spec(kind: LazyNzcvKind) -> u64 {
    match kind {
        LazyNzcvKind::Add { sf } => if sf {
            CC_OP_ADD64
        } else {
            CC_OP_ADD32
        },
        LazyNzcvKind::Sub { sf } => if sf {
            CC_OP_SUB64
        } else {
            CC_OP_SUB32
        },
        LazyNzcvKind::Logic { sf } => if sf {
            CC_OP_LOGIC64
        } else {
            CC_OP_LOGIC32
        },
    }
}

impl LazyNzcvKind {
    /// The `cc_op` value that generated code stores for this kind.
    pub fn cc_op(self) -> (r: u64)
        ensures
            r == cc_op_spec(self),
    {
        match self {
            LazyNzcvKind::Add { sf } => if sf {
                CC_OP_ADD64
            } else {
                CC_OP_ADD32
            },
            LazyNzcvKind::Sub { sf } => if sf {
                CC_OP_SUB64
            } else {
                CC_OP_SUB32
            },
            LazyNzcvKind::Logic { sf } => if sf {
                CC_OP_LOGIC64
            } else {
                CC_OP_LOGIC32
            },
        }
    }
}

/// Recording an operation lazily loses nothing: the flags that the lazy
/// state describes (its kind's `cc_op`, with the operands stored
/// zero-extended from the operand width) are the flags of the operation on
/// the operands as given.
pub proof fn law_lazy_record_flags(kind: LazyNzcvKind, a: u64, b: u64, result: u64)
    ensures
        ({
            let sf = match kind {
                LazyNzcvKind::Add { sf } => sf,
                LazyNzcvKind::Sub { sf } => sf,
                LazyNzcvKind::Logic { sf } => sf,
            };
            let (a2, b2, r2) = (
                low_bits(a, sf) as u64,
                low_bits(b, sf) as u64,
                low_bits(result, sf) as u64,
            );
            lazy_nzcv_spec(cc_op_spec(kind), a2, b2, r2) == match kind {
                LazyNzcvKind::Add { sf } => nzcv_add_spec(a, b, result, sf),
                LazyNzcvKind::Sub { sf } => nzcv_sub_spec(a, b, result, sf),
                LazyNzcvKind::Logic { sf } => nzcv_logic_spec(result, sf),
            }
        }),
{
}

/// Packed NZCV value of a lazy flag state. Unknown operation kinds give 0.
pub fn helper_lazy_nzcv_to_packed(cc_op: u64, cc_a: u64, cc_b: u64, cc_result: u64) -> (r: u64)
    ensures
        r == lazy_nzcv_spec(cc_op, cc_a, cc_b, cc_result),
{
    match cc_op {
        CC_OP_EAGER => cc_a,
        CC_OP_ADD32 => compute_nzcv_add(cc_a, cc_b, cc_result, false),
        CC_OP_ADD64 => compute_nzcv_add(cc_a, cc_b, cc_result, true),
        CC_OP_SUB32 => compute_nzcv_sub(cc_a, cc_b, cc_result, false),
        CC_OP_SUB64 => compute_nzcv_sub(cc_a, cc_b, cc_result, true),
        CC_OP_LOGIC32 => compute_nzcv_logic(cc_result, false),
        CC_OP_LOGIC64 => compute_nzcv_logic(cc_result, true),
        _ => 0,
    }
}

/// Evaluates condition `cond` (the low 32 bits of the argument) against a
/// lazy flag state: 1 if it holds, else 0.
pub fn helper_lazy_nzcv_eval_cond(cc_op: u64, cc_a: u64, cc_b: u64, cc_result: u64, cond: u64) -> (r:
    u64)
    ensures
        r == if cond_holds(lazy_nzcv_spec(cc_op, cc_a, cc_b, cc_result), cond as u32) {
            1u64
        } else {
            0u64
        },
{
    let nzcv = match cc_op {
        CC_OP_EAGER => cc_a,
        _ => helper_lazy_nzcv_to_packed(cc_op, cc_a, cc_b, cc_result),
    };
    eval_cond_from_packed(nzcv, cond as u32)
}


// ---------------------------------------------------------------------
// Laws
// ---------------------------------------------------------------------

/// Two's-complement value of a `width`-bit unsigned quantity.
pub open spec fn signed(x: int, width: nat) -> int {
    if sign_bit(x, width) {
        x - pow2(width)
    } else {
        x
    }
}

/// Reading a flag back from a packed NZCV word gives the flag that was packed.
pub proof fn lemma_pack_nzcv_flags(n: bool, z: bool, c: bool, v: bool)
    ensures
        flag_n(pack_nzcv(n, z, c, v)) == n,
        flag_z(pack_nzcv(n, z, c, v)) == z,
        flag_c(pack_nzcv(n, z, c, v)) == c,
        flag_v(pack_nzcv(n, z, c, v)) == v,
{
    let p = pack_nzcv(n, z, c, v);
    let (nn, zz, cc, vv) = (
        if n { 1u64 } else { 0u64 },
        if z { 1u64 } else { 0u64 },
        if c { 1u64 } else { 0u64 },
        if v { 1u64 } else { 0u64 },
    );
    assert(p == nn * 0x8000_0000 + zz * 0x4000_0000 + cc * 0x2000_0000 + vv * 0x1000_0000);
    assert((p >> 31u64) & 1 == nn && (p >> 30u64) & 1 == zz && (p >> 29u64) & 1 == cc && (p
        >> 28u64) & 1 == vv) by (bit_vector)
        requires
            nn <= 1,
            zz <= 1,
            cc <= 1,
            vv <= 1,
            p == nn * 0x8000_0000 + zz * 0x4000_0000 + cc * 0x2000_0000 + vv * 0x1000_0000,
    ;
}

/// The flags computed for an addition whose result is the wrapped sum are
/// the architectural ones: N is the sign of the result, Z says it is zero,
/// C is the unsigned carry out and V the signed overflow.
pub proof fn law_add_flags(a: u64, b: u64, result: u64, sf: bool)
    requires
        low_bits(result, sf) == (low_bits(a, sf) + low_bits(b, sf)) % pow2(width_of(sf)),
    ensures
        ({
            let f = nzcv_add_spec(a, b, result, sf);
            let w = width_of(sf);
            let (x, y, r) = (low_bits(a, sf), low_bits(b, sf), low_bits(result, sf));
            &&& flag_n(f) == (signed(r, w) < 0)
            &&& flag_z(f) == (r == 0)
            &&& flag_c(f) == (x + y >= pow2(w))
            &&& flag_v(f) == !(-pow2(w) / 2 <= signed(x, w) + signed(y, w) < pow2(w) / 2)
        }),
{
    let w = width_of(sf);
    let (x, y, r) = (low_bits(a, sf), low_bits(b, sf), low_bits(result, sf));
    assert(0 <= x < pow2(w) && 0 <= y < pow2(w));
    if x + y >= pow2(w) {
        assert(r == x + y - pow2(w));
    } else {
        assert(r == x + y);
    }
    lemma_pack_nzcv_flags(
        sign_bit(r, w),
        r == 0,
        r < x,
        sign_bit(x, w) == sign_bit(y, w) && sign_bit(r, w) != sign_bit(x, w),
    );
}

/// The flags computed for a subtraction whose result is the wrapped
/// difference are the architectural ones: C means no borrow and V the signed
/// overflow.
pub proof fn law_sub_flags(a: u64, b: u64, result: u64, sf: bool)
    requires
        low_bits(result, sf) == (low_bits(a, sf) - low_bits(b, sf)) % pow2(width_of(sf)),
    ensures
        ({
            let f = nzcv_sub_spec(a, b, result, sf);
            let w = width_of(sf);
            let (x, y, r) = (low_bits(a, sf), low_bits(b, sf), low_bits(result, sf));
            &&& flag_n(f) == (signed(r, w) < 0)
            &&& flag_z(f) == (r == 0)
            &&& flag_c(f) == (x >= y)
            &&& flag_v(f) == !(-pow2(w) / 2 <= signed(x, w) - signed(y, w) < pow2(w) / 2)
        }),
{
    let w = width_of(sf);
    let (x, y, r) = (low_bits(a, sf), low_bits(b, sf), low_bits(result, sf));
    assert(0 <= x < pow2(w) && 0 <= y < pow2(w));
    if x >= y {
        assert(r == x - y);
    } else {
        assert(r == x - y + pow2(w));
    }
    lemma_pack_nzcv_flags(
        sign_bit(r, w),
        r == 0,
        x >= y,
        sign_bit(x, w) != sign_bit(y, w) && sign_bit(r, w) != sign_bit(x, w),
    );
}

/// A logical operation sets N and Z from its result and clears C and V.
pub proof fn law_logic_flags(result: u64, sf: bool)
    ensures
        ({
            let f = nzcv_logic_spec(result, sf);
            let r = low_bits(result, sf);
            &&& flag_n(f) == (signed(r, width_of(sf)) < 0)
            &&& flag_z(f) == (r == 0)
            &&& !flag_c(f)
            &&& !flag_v(f)
        }),
{
    let r = low_bits(result, sf);
    lemma_pack_nzcv_flags(sign_bit(r, width_of(sf)), r == 0, false, false);
}

/// The sixteen A64 condition codes by name: EQ/NE test Z, CS/CC test C,
/// MI/PL test N, VS/VC test V, HI holds when C is set and Z clear, LS
/// otherwise, GE/LT compare N with V, GT also needs Z clear, LE is its
/// opposite, and AL/NV always hold; each flag is its bit of the packed word
/// (N bit 31, Z bit 30, C bit 29, V bit 28).
pub proof fn law_condition_table(nzcv: u64, cond: u32)
    ensures
        ({
            let n = (nzcv >> 31u64) & 1 == 1;
            let z = (nzcv >> 30u64) & 1 == 1;
            let c = (nzcv >> 29u64) & 1 == 1;
            let v = (nzcv >> 28u64) & 1 == 1;
            cond < 16 ==> cond_holds(nzcv, cond) == (if cond == 0 {
                z
            } else if cond == 1 {
                !z
            } else if cond == 2 {
                c
            } else if cond == 3 {
                !c
            } else if cond == 4 {
                n
            } else if cond == 5 {
                !n
            } else if cond == 6 {
                v
            } else if cond == 7 {
                !v
            } else if cond == 8 {
                c && !z
            } else if cond == 9 {
                !c || z
            } else if cond == 10 {
                n == v
            } else if cond == 11 {
                n != v
            } else if cond == 12 {
                !z && n == v
            } else if cond == 13 {
                z || n != v
            } else {
                true
            })
        }),
{
}

/// Each even condition code below 14 and the odd code after it are
/// complements; AL (14) and NV (15) always hold.
pub proof fn law_cond_pairs(nzcv: u64, cond: u32)
    requires
        cond < 14,
        cond % 2 == 0,
    ensures
        cond_holds(nzcv, cond) != cond_holds(nzcv, (cond + 1) as u32),
        cond_holds(nzcv, 14),
        cond_holds(nzcv, 15),
{
}

/// Evaluating a condition on the lazy flag state gives the same answer as
/// first materialising the packed NZCV value and evaluating on that.
pub proof fn law_lazy_eval_matches_packed(
    cc_op: u64,
    cc_a: u64,
    cc_b: u64,
    cc_result: u64,
    cond: u64,
)
    ensures
        cond_holds(lazy_nzcv_spec(cc_op, cc_a, cc_b, cc_result), cond as u32) == cond_holds(
            if cc_op == CC_OP_EAGER {
                cc_a
            } else {
                lazy_nzcv_spec(cc_op, cc_a, cc_b, cc_result)
            },
            cond as u32,
        ),
{
}

} // verus!
