//! CPU state structures laid out as QEMU keeps them, so that the state of
//! the translator and of QEMU can be compared register by register.

use vstd::prelude::*;

use crate::text::{dec_text, hex_diff, hex_diff_text, indexed_name};

verus! {

/// Names of the RISC-V integer registers (ABI names).
pub const RISCV_GPR_NAMES: [&'static str; 32] = [
    "zero", "ra", "sp", "gp", "tp", "t0", "t1", "t2", "s0", "s1", "a0", "a1", "a2", "a3", "a4",
    "a5", "a6", "a7", "s2", "s3", "s4", "s5", "s6", "s7", "s8", "s9", "s10", "s11", "t3", "t4",
    "t5", "t6",
];

/// Names of the RISC-V floating-point registers (ABI names).
pub const RISCV_FPR_NAMES: [&'static str; 32] = [
    "ft0", "ft1", "ft2", "ft3", "ft4", "ft5", "ft6", "ft7", "fs0", "fs1", "fa0", "fa1", "fa2",
    "fa3", "fa4", "fa5", "fa6", "fa7", "fs2", "fs3", "fs4", "fs5", "fs6", "fs7", "fs8", "fs9",
    "fs10", "fs11", "ft8", "ft9", "ft10", "ft11",
];

/// Names of the AArch64 general-purpose registers.
pub const AARCH64_GPR_NAMES: [&'static str; 31] = [
    "x0", "x1", "x2", "x3", "x4", "x5", "x6", "x7", "x8", "x9", "x10", "x11", "x12", "x13",
    "x14", "x15", "x16", "x17", "x18", "x19", "x20", "x21", "x22", "x23", "x24", "x25", "x26",
    "x27", "x28", "x29", "x30",
];

/// Names of the AArch64 SIMD&FP registers.
pub const AARCH64_FPR_NAMES: [&'static str; 32] = [
    "v0", "v1", "v2", "v3", "v4", "v5", "v6", "v7", "v8", "v9", "v10", "v11", "v12", "v13",
    "v14", "v15", "v16", "v17", "v18", "v19", "v20", "v21", "v22", "v23", "v24", "v25", "v26",
    "v27", "v28", "v29", "v30", "v31",
];

/// One report line for each index `i < n` where `a[i] != b[i]`, in index
/// order, naming register `i` by `name(i)` and showing both values as
/// `width` hex digits.
pub open spec fn seq_diffs(
    name: spec_fn(int) -> Seq<char>,
    a: Seq<nat>,
    b: Seq<nat>,
    width: nat,
    n: nat,
) -> Seq<Seq<char>>
    decreases n,
{
    if n == 0 {
        Seq::empty()
    } else {
        let rest = seq_diffs(name, a, b, width, (n - 1) as nat);
        let i = n - 1;
        if a[i] != b[i] {
            rest.push(hex_diff_text(name(i), a[i], b[i], width))
        } else {
            rest
        }
    }
}

/// A one-line report when `a != b`, otherwise nothing.
pub open spec fn field_diff(name: Seq<char>, a: nat, b: nat, width: nat) -> Seq<Seq<char>> {
    if a != b {
        seq![hex_diff_text(name, a, b, width)]
    } else {
        Seq::empty()
    }
}

/// The texts of a vector of strings.
pub open spec fn texts(v: Seq<String>) -> Seq<Seq<char>> {
    v.map_values(|s: String| s@)
}

/// Values of a register file as natural numbers.
pub open spec fn nats_u64(s: Seq<u64>) -> Seq<nat> {
    s.map_values(|x: u64| x as nat)
}

/// Values of a register file as natural numbers.
pub open spec fn nats_u128(s: Seq<u128>) -> Seq<nat> {
    s.map_values(|x: u128| x as nat)
}

/// `prefix` followed by the decimal index.
pub open spec fn indexed(prefix: Seq<char>) -> spec_fn(int) -> Seq<char> {
    |i: int| prefix + dec_text(i as nat)
}

/// Register `i` named by a table, `?` when absent.
pub open spec fn table_name(names: Seq<&'static str>) -> spec_fn(int) -> Seq<char> {
    |i: int| if 0 <= i < names.len() { names[i]@ } else { seq!['?'] }
}

/// AArch64 CPU state (as in QEMU's CPUARMState).
#[derive(Clone, Copy, Debug, PartialEq)]
pub struct Aarch64CpuState {
    pub xregs: [u64; 31],
    pub sp: u64,
    pub pc: u64,
    pub pstate: u64,
    pub vregs: [u128; 32],
    pub fpcr: u32,
    pub fpsr: u32,
    pub tpidr_el0: u64,
    pub tpidrro_el0: u64,
}

/// RISC-V CPU state (as in QEMU's CPURISCVState).
#[derive(Clone, Copy, Debug, PartialEq)]
pub struct RiscvCpuState {
    pub xregs: [u64; 32],
    pub pc: u64,
    pub fregs: [u64; 32],
    pub fcsr: u32,
    pub privilege: u8,
    pub mstatus: u64,
    pub mie: u64,
    pub mip: u64,
    pub mtvec: u64,
    pub mcause: u64,
    pub mepc: u64,
    pub satp: u64,
}

impl Aarch64CpuState {
    pub const NUM_GPRS: usize = 31;

    pub const NUM_FPRS: usize = 32;

    /// Every register is zero.
    pub open spec fn is_zero(&self) -> bool {
        &&& forall|i: int| 0 <= i < 31 ==> self.xregs[i] == 0
        &&& forall|i: int| 0 <= i < 32 ==> self.vregs[i] == 0
        &&& self.sp == 0 && self.pc == 0 && self.pstate == 0
        &&& self.fpcr == 0 && self.fpsr == 0 && self.tpidr_el0 == 0 && self.tpidrro_el0 == 0
    }

    /// The register-by-register differences from `other`: X0-X30, SP, PC,
    /// PSTATE, V0-V31, FPCR, FPSR, in that order.
    pub open spec fn diff_spec(&self, other: &Self) -> Seq<Seq<char>> {
        seq_diffs(indexed(seq!['X']), nats_u64(self.xregs@), nats_u64(other.xregs@), 16, 31)
            + field_diff(seq!['S', 'P'], self.sp as nat, other.sp as nat, 16) + field_diff(
            seq!['P', 'C'],
            self.pc as nat,
            other.pc as nat,
            16,
        ) + field_diff(
            seq!['P', 'S', 'T', 'A', 'T', 'E'],
            self.pstate as nat,
            other.pstate as nat,
            16,
        ) + seq_diffs(
            indexed(seq!['V']),
            nats_u128(self.vregs@),
            nats_u128(other.vregs@),
            32,
            32,
        ) + field_diff(seq!['F', 'P', 'C', 'R'], self.fpcr as nat, other.fpcr as nat, 8)
            + field_diff(seq!['F', 'P', 'S', 'R'], self.fpsr as nat, other.fpsr as nat, 8)
    }

    pub fn new() -> (s: Self)
        ensures
            s.is_zero(),
    {
        Aarch64CpuState {
            xregs: [0u64; 31],
            sp: 0,
            pc: 0,
            pstate: 0,
            vregs: [0u128; 32],
            fpcr: 0,
            fpsr: 0,
            tpidr_el0: 0,
            tpidrro_el0: 0,
        }
    }

    /// Register `X<idx>`, or `None` when there is no such register.
    pub fn get_x(&self, idx: usize) -> (r: Option<u64>)
        ensures
            r == if idx < 31 {
                Some(self.xregs[idx as int])
            } else {
                None
            },
    {
        if idx < 31 {
            Some(self.xregs[idx])
        } else {
            None
        }
    }

    /// Sets `X<idx>`; does nothing when there is no such register.
    pub fn set_x(&mut self, idx: usize, value: u64)
        ensures
            idx < 31 ==> *final(self) == (Aarch64CpuState {
                xregs: final(self).xregs,
                ..*old(self)
            }) && final(self).xregs@ == old(self).xregs@.update(idx as int, value),
            idx >= 31 ==> *final(self) == *old(self),
    {
        if idx < 31 {
            self.xregs[idx] = value;
        }
    }

    /// Register `V<idx>`, or `None` when there is no such register.
    pub fn get_v(&self, idx: usize) -> (r: Option<u128>)
        ensures
            r == if idx < 32 {
                Some(self.vregs[idx as int])
            } else {
                None
            },
    {
        if idx < 32 {
            Some(self.vregs[idx])
        } else {
            None
        }
    }

    /// Sets `V<idx>`; does nothing when there is no such register.
    pub fn set_v(&mut self, idx: usize, value: u128)
        ensures
            idx < 32 ==> *final(self) == (Aarch64CpuState {
                vregs: final(self).vregs,
                ..*old(self)
            }) && final(self).vregs@ == old(self).vregs@.update(idx as int, value),
            idx >= 32 ==> *final(self) == *old(self),
    {
        if idx < 32 {
            self.vregs[idx] = value;
        }
    }

    /// Describes every register that differs from `other`; there is nothing
    /// to report exactly when the two states agree on X0-X30, SP, PC,
    /// PSTATE, V0-V31, FPCR and FPSR.
    pub fn diff(&self, other: &Self) -> (r: Vec<String>)
        ensures
            texts(r@) == self.diff_spec(other),
            r@.len() == 0 <==> (self.xregs@ == other.xregs@ && self.sp == other.sp && self.pc
                == other.pc && self.pstate == other.pstate && self.vregs@ == other.vregs@
                && self.fpcr == other.fpcr && self.fpsr == other.fpsr),
    {
        proof {
            law_aarch64_diff_empty(*self, *other);
            reveal_strlit("X");
            reveal_strlit("V");
            reveal_strlit("SP");
            reveal_strlit("PC");
            reveal_strlit("PSTATE");
            reveal_strlit("FPCR");
            reveal_strlit("FPSR");
            assert("FPCR"@ == seq!['F', 'P', 'C', 'R']);
            assert("FPSR"@ == seq!['F', 'P', 'S', 'R']);
        }
        let mut diffs: Vec<String> = Vec::new();
        let ghost xa = nats_u64(self.xregs@);
        let ghost xb = nats_u64(other.xregs@);
        let mut i: usize = 0;
        while i < 31
            invariant
                i <= 31,
                xa == nats_u64(self.xregs@),
                xb == nats_u64(other.xregs@),
                texts(diffs@) == seq_diffs(indexed(seq!['X']), xa, xb, 16, i as nat),
            decreases 31 - i,
        {
            let a = self.xregs[i];
            let b = other.xregs[i];
            proof {
                reveal_strlit("X");
                assert(xa[i as int] == a as nat && xb[i as int] == b as nat);
            }
            let ghost prev = diffs@;
            if a != b {
                let name = indexed_name("X", i as u128);
                assert(name@ == indexed(seq!['X'])(i as int));
                diffs.push(hex_diff(name.as_str(), a as u128, b as u128, 16));
                assert(texts(diffs@) =~= texts(prev).push(diffs@.last()@));
            }
            i += 1;
        }
        proof {
            reveal_strlit("SP");
            reveal_strlit("PC");
            reveal_strlit("PSTATE");
            assert("SP"@ == seq!['S', 'P']);
            assert("PC"@ == seq!['P', 'C']);
            assert("PSTATE"@ == seq!['P', 'S', 'T', 'A', 'T', 'E']);
        }
        push_field_diff(&mut diffs, "SP", self.sp as u128, other.sp as u128, 16);
        push_field_diff(&mut diffs, "PC", self.pc as u128, other.pc as u128, 16);
        push_field_diff(&mut diffs, "PSTATE", self.pstate as u128, other.pstate as u128, 16);
        let ghost before_v = texts(diffs@);
        let ghost va = nats_u128(self.vregs@);
        let ghost vb = nats_u128(other.vregs@);
        let mut i: usize = 0;
        while i < 32
            invariant
                i <= 32,
                va == nats_u128(self.vregs@),
                vb == nats_u128(other.vregs@),
                texts(diffs@) == before_v + seq_diffs(indexed(seq!['V']), va, vb, 32, i as nat),
            decreases 32 - i,
        {
            let a = self.vregs[i];
            let b = other.vregs[i];
            proof {
                reveal_strlit("V");
                assert(va[i as int] == a as nat && vb[i as int] == b as nat);
            }
            let ghost prev = diffs@;
            if a != b {
                let name = indexed_name("V", i as u128);
                assert(name@ == indexed(seq!['V'])(i as int));
                diffs.push(hex_diff(name.as_str(), a, b, 32));
                assert(texts(diffs@) =~= texts(prev).push(diffs@.last()@));
                assert(before_v + seq_diffs(indexed(seq!['V']), va, vb, 32, (i + 1) as nat)
                    =~= (before_v + seq_diffs(indexed(seq!['V']), va, vb, 32, i as nat)).push(
                    diffs@.last()@,
                ));
            }
            i += 1;
        }
        proof {
            reveal_strlit("FPCR");
            reveal_strlit("FPSR");
            assert("FPCR"@ == seq!['F', 'P', 'C', 'R']);
            assert("FPSR"@ == seq!['F', 'P', 'S', 'R']);
        }
        push_field_diff(&mut diffs, "FPCR", self.fpcr as u128, other.fpcr as u128, 8);
        push_field_diff(&mut diffs, "FPSR", self.fpsr as u128, other.fpsr as u128, 8);
        assert(texts(diffs@) =~= self.diff_spec(other));
        diffs
    }
}

impl Default for Aarch64CpuState {
    fn default() -> (s: Self)
        ensures
            s.is_zero(),
    {
        Self::new()
    }
}

/// Appends the report line for a field when its two values differ.
fn push_field_diff(diffs: &mut Vec<String>, name: &str, a: u128, b: u128, width: usize)
    ensures
        texts(final(diffs)@) == texts(old(diffs)@) + field_diff(
            name@,
            a as nat,
            b as nat,
            width as nat,
        ),
{
    if a != b {
        diffs.push(hex_diff(name, a, b, width));
        assert(texts(diffs@) =~= texts(old(diffs)@) + field_diff(
            name@,
            a as nat,
            b as nat,
            width as nat,
        ));
    } else {
        assert(texts(diffs@) =~= texts(old(diffs)@) + field_diff(
            name@,
            a as nat,
            b as nat,
            width as nat,
        ));
    }
}

impl RiscvCpuState {
    pub const NUM_GPRS: usize = 32;

    pub const NUM_FPRS: usize = 32;

    /// Every register is zero.
    pub open spec fn is_zero(&self) -> bool {
        &&& forall|i: int| 0 <= i < 32 ==> self.xregs[i] == 0
        &&& forall|i: int| 0 <= i < 32 ==> self.fregs[i] == 0
        &&& self.pc == 0 && self.fcsr == 0 && self.privilege == 0
        &&& self.mstatus == 0 && self.mie == 0 && self.mip == 0 && self.mtvec == 0
        &&& self.mcause == 0 && self.mepc == 0 && self.satp == 0
    }

    /// The register-by-register differences from `other`: x0-x31 by ABI
    /// name, PC, f0-f31 by ABI name, FCSR, PRIV and MSTATUS, in that order.
    pub open spec fn diff_spec(&self, other: &Self) -> Seq<Seq<char>> {
        seq_diffs(
            table_name(RISCV_GPR_NAMES@),
            nats_u64(self.xregs@),
            nats_u64(other.xregs@),
            16,
            32,
        ) + field_diff(seq!['P', 'C'], self.pc as nat, other.pc as nat, 16) + seq_diffs(
            table_name(RISCV_FPR_NAMES@),
            nats_u64(self.fregs@),
            nats_u64(other.fregs@),
            16,
            32,
        ) + field_diff(seq!['F', 'C', 'S', 'R'], self.fcsr as nat, other.fcsr as nat, 8) + (
        if self.privilege != other.privilege {
            seq![
                seq!['P', 'R', 'I', 'V', ':', ' '] + dec_text(self.privilege as nat) + seq![
                    ' ',
                    'v',
                    's',
                    ' ',
                ] + dec_text(other.privilege as nat),
            ]
        } else {
            Seq::empty()
        }) + field_diff(
            seq!['M', 'S', 'T', 'A', 'T', 'U', 'S'],
            self.mstatus as nat,
            other.mstatus as nat,
            16,
        )
    }

    pub fn new() -> (s: Self)
        ensures
            s.is_zero(),
    {
        RiscvCpuState {
            xregs: [0u64; 32],
            pc: 0,
            fregs: [0u64; 32],
            fcsr: 0,
            privilege: 0,
            mstatus: 0,
            mie: 0,
            mip: 0,
            mtvec: 0,
            mcause: 0,
            mepc: 0,
            satp: 0,
        }
    }

    /// Register `x<idx>`, or `None` when there is no such register.
    pub fn get_x(&self, idx: usize) -> (r: Option<u64>)
        ensures
            r == if idx < 32 {
                Some(self.xregs[idx as int])
            } else {
                None
            },
    {
        if idx < 32 {
            Some(self.xregs[idx])
        } else {
            None
        }
    }

    /// Sets `x<idx>`; does nothing when there is no such register.
    pub fn set_x(&mut self, idx: usize, value: u64)
        ensures
            idx < 32 ==> *final(self) == (RiscvCpuState {
                xregs: final(self).xregs,
                ..*old(self)
            }) && final(self).xregs@ == old(self).xregs@.update(idx as int, value),
            idx >= 32 ==> *final(self) == *old(self),
    {
        if idx < 32 {
            self.xregs[idx] = value;
        }
    }

    /// Register `f<idx>`, or `None` when there is no such register.
    pub fn get_f(&self, idx: usize) -> (r: Option<u64>)
        ensures
            r == if idx < 32 {
                Some(self.fregs[idx as int])
            } else {
                None
            },
    {
        if idx < 32 {
            Some(self.fregs[idx])
        } else {
            None
        }
    }

    /// Sets `f<idx>`; does nothing when there is no such register.
    pub fn set_f(&mut self, idx: usize, value: u64)
        ensures
            idx < 32 ==> *final(self) == (RiscvCpuState {
                fregs: final(self).fregs,
                ..*old(self)
            }) && final(self).fregs@ == old(self).fregs@.update(idx as int, value),
            idx >= 32 ==> *final(self) == *old(self),
    {
        if idx < 32 {
            self.fregs[idx] = value;
        }
    }

    /// Describes every register that differs from `other`.
    pub fn diff(&self, other: &Self) -> (r: Vec<String>)
        ensures
            texts(r@) == self.diff_spec(other),
            r@.len() == 0 <==> (self.xregs@ == other.xregs@ && self.pc == other.pc
                && self.fregs@ == other.fregs@ && self.fcsr == other.fcsr && self.privilege
                == other.privilege && self.mstatus == other.mstatus),
    {
        proof {
            law_riscv_diff_empty(*self, *other);
            reveal_strlit("PC");
            reveal_strlit("FCSR");
            reveal_strlit("MSTATUS");
            reveal_strlit("PRIV: ");
            reveal_strlit(" vs ");
            assert("PC"@ == seq!['P', 'C']);
            assert("FCSR"@ == seq!['F', 'C', 'S', 'R']);
            assert("MSTATUS"@ == seq!['M', 'S', 'T', 'A', 'T', 'U', 'S']);
            assert("PRIV: "@ == seq!['P', 'R', 'I', 'V', ':', ' ']);
            assert(" vs "@ == seq![' ', 'v', 's', ' ']);
        }
        let mut diffs: Vec<String> = Vec::new();
        let ghost xa = nats_u64(self.xregs@);
        let ghost xb = nats_u64(other.xregs@);
        let mut i: usize = 0;
        while i < 32
            invariant
                i <= 32,
                xa == nats_u64(self.xregs@),
                xb == nats_u64(other.xregs@),
                texts(diffs@) == seq_diffs(table_name(RISCV_GPR_NAMES@), xa, xb, 16, i as nat),
            decreases 32 - i,
        {
            let a = self.xregs[i];
            let b = other.xregs[i];
            proof {
                assert(xa[i as int] == a as nat && xb[i as int] == b as nat);
            }
            if a != b {
                let name = RISCV_GPR_NAMES[i];
                diffs.push(hex_diff(name, a as u128, b as u128, 16));
                assert(texts(diffs@) =~= texts(diffs@.drop_last()).push(diffs@.last()@));
            }
            i += 1;
        }
        push_field_diff(&mut diffs, "PC", self.pc as u128, other.pc as u128, 16);
        let ghost before_f = texts(diffs@);
        let ghost fa = nats_u64(self.fregs@);
        let ghost fb = nats_u64(other.fregs@);
        let mut i: usize = 0;
        while i < 32
            invariant
                i <= 32,
                fa == nats_u64(self.fregs@),
                fb == nats_u64(other.fregs@),
                texts(diffs@) == before_f + seq_diffs(
                    table_name(RISCV_FPR_NAMES@),
                    fa,
                    fb,
                    16,
                    i as nat,
                ),
            decreases 32 - i,
        {
            let a = self.fregs[i];
            let b = other.fregs[i];
            proof {
                assert(fa[i as int] == a as nat && fb[i as int] == b as nat);
            }
            let ghost prev = diffs@;
            if a != b {
                let name = RISCV_FPR_NAMES[i];
                diffs.push(hex_diff(name, a as u128, b as u128, 16));
                assert(texts(diffs@) =~= texts(prev).push(diffs@.last()@));
                assert(before_f + seq_diffs(table_name(RISCV_FPR_NAMES@), fa, fb, 16, (i + 1) as nat)
                    =~= (before_f + seq_diffs(table_name(RISCV_FPR_NAMES@), fa, fb, 16, i as nat)).push(
                    diffs@.last()@,
                ));
            }
            i += 1;
        }
        push_field_diff(&mut diffs, "FCSR", self.fcsr as u128, other.fcsr as u128, 8);
        if self.privilege != other.privilege {
            let mut s = String::from_str("PRIV: ");
            crate::text::push_dec(&mut s, self.privilege as u128);
            s.append(" vs ");
            crate::text::push_dec(&mut s, other.privilege as u128);
            diffs.push(s);
            assert(texts(diffs@) =~= texts(diffs@.drop_last()).push(diffs@.last()@));
        }
        push_field_diff(&mut diffs, "MSTATUS", self.mstatus as u128, other.mstatus as u128, 16);
        assert(texts(diffs@) =~= self.diff_spec(other));
        diffs
    }
}

impl Default for RiscvCpuState {
    fn default() -> (s: Self)
        ensures
            s.is_zero(),
    {
        Self::new()
    }
}

/// Register naming.
impl Aarch64CpuState {
    pub fn pc_reg_name() -> (r: &'static str)
        ensures
            r@ == seq!['p', 'c'],
    {
        proof {
            reveal_strlit("pc");
        }
        "pc"
    }

    pub fn sp_reg_name() -> (r: &'static str)
        ensures
            r@ == seq!['s', 'p'],
    {
        proof {
            reveal_strlit("sp");
        }
        "sp"
    }

    pub fn gpr_name(idx: usize) -> (r: Option<&'static str>)
        ensures
            r == if idx < 31 {
                Some(AARCH64_GPR_NAMES[idx as int])
            } else {
                None
            },
    {
        if idx < 31 {
            Some(AARCH64_GPR_NAMES[idx])
        } else {
            None
        }
    }

    pub fn fpr_name(idx: usize) -> (r: Option<&'static str>)
        ensures
            r == if idx < 32 {
                Some(AARCH64_FPR_NAMES[idx as int])
            } else {
                None
            },
    {
        if idx < 32 {
            Some(AARCH64_FPR_NAMES[idx])
        } else {
            None
        }
    }
}

/// Register naming.
impl RiscvCpuState {
    pub fn pc_reg_name() -> (r: &'static str)
        ensures
            r@ == seq!['p', 'c'],
    {
        proof {
            reveal_strlit("pc");
        }
        "pc"
    }

    pub fn sp_reg_name() -> (r: &'static str)
        ensures
            r@ == seq!['x', '2'],
    {
        proof {
            reveal_strlit("x2");
        }
        "x2"
    }

    pub fn gpr_name(idx: usize) -> (r: Option<&'static str>)
        ensures
            r == if idx < 32 {
                Some(RISCV_GPR_NAMES[idx as int])
            } else {
                None
            },
    {
        if idx < 32 {
            Some(RISCV_GPR_NAMES[idx])
        } else {
            None
        }
    }

    pub fn fpr_name(idx: usize) -> (r: Option<&'static str>)
        ensures
            r == if idx < 32 {
                Some(RISCV_FPR_NAMES[idx as int])
            } else {
                None
            },
    {
        if idx < 32 {
            Some(RISCV_FPR_NAMES[idx])
        } else {
            None
        }
    }
}

fn aarch64_name() -> (r: &'static str)
    ensures
        r@ == seq!['a', 'a', 'r', 'c', 'h', '6', '4'],
{
    proof {
        reveal_strlit("aarch64");
    }
    "aarch64"
}

fn riscv64_name() -> (r: &'static str)
    ensures
        r@ == seq!['r', 'i', 's', 'c', 'v', '6', '4'],
{
    proof {
        reveal_strlit("riscv64");
    }
    "riscv64"
}

/// CPU state of either guest architecture.
#[derive(Clone, Copy, Debug, PartialEq)]
pub enum QemuCpuState {
    Aarch64(Aarch64CpuState),
    Riscv64(RiscvCpuState),
}

/// The text of the report for states of different architectures.
pub open spec fn arch_mismatch_text() -> Seq<char> {
    seq![
        'A', 'r', 'c', 'h', 'i', 't', 'e', 'c', 't', 'u', 'r', 'e', ' ', 'm', 'i', 's', 'm',
        'a', 't', 'c', 'h',
    ]
}

impl QemuCpuState {
    /// Register differences between two states; one fixed line when the
    /// architectures differ.
    pub open spec fn diff_spec(&self, other: &Self) -> Seq<Seq<char>> {
        match (*self, *other) {
            (QemuCpuState::Aarch64(a), QemuCpuState::Aarch64(b)) => a.diff_spec(&b),
            (QemuCpuState::Riscv64(a), QemuCpuState::Riscv64(b)) => a.diff_spec(&b),
            _ => seq![arch_mismatch_text()],
        }
    }

    pub fn as_aarch64(&self) -> (r: Option<&Aarch64CpuState>)
        ensures
            r == match *self {
                QemuCpuState::Aarch64(s) => Some(&s),
                _ => None,
            },
    {
        match self {
            QemuCpuState::Aarch64(state) => Some(state),
            _ => None,
        }
    }

    pub fn as_aarch64_mut(&mut self) -> (r: Option<&mut Aarch64CpuState>)
        ensures
            (*old(self) is Aarch64) <==> r is Some,
            r matches Some(s) ==> *s == (*old(self))->Aarch64_0 && *final(self)
                == QemuCpuState::Aarch64(*final(s)),
            r is None ==> *final(self) == *old(self),
    {
        match self {
            QemuCpuState::Aarch64(state) => Some(state),
            _ => None,
        }
    }

    pub fn as_riscv64(&self) -> (r: Option<&RiscvCpuState>)
        ensures
            r == match *self {
                QemuCpuState::Riscv64(s) => Some(&s),
                _ => None,
            },
    {
        match self {
            QemuCpuState::Riscv64(state) => Some(state),
            _ => None,
        }
    }

    pub fn as_riscv64_mut(&mut self) -> (r: Option<&mut RiscvCpuState>)
        ensures
            (*old(self) is Riscv64) <==> r is Some,
            r matches Some(s) ==> *s == (*old(self))->Riscv64_0 && *final(self)
                == QemuCpuState::Riscv64(*final(s)),
            r is None ==> *final(self) == *old(self),
    {
        match self {
            QemuCpuState::Riscv64(state) => Some(state),
            _ => None,
        }
    }

    /// Describes every register that differs from `other`.
    pub fn diff(&self, other: &Self) -> (r: Vec<String>)
        ensures
            texts(r@) == self.diff_spec(other),
    {
        match (self, other) {
            (QemuCpuState::Aarch64(a), QemuCpuState::Aarch64(b)) => a.diff(b),
            (QemuCpuState::Riscv64(a), QemuCpuState::Riscv64(b)) => a.diff(b),
            _ => {
                proof {
                    reveal_strlit("Architecture mismatch");
                }
                let mut v: Vec<String> = Vec::new();
                let line = String::from_str("Architecture mismatch");
                assert(line@ == arch_mismatch_text());
                v.push(line);
                assert(v@ == seq![line]);
                assert(texts(v@) =~= seq![arch_mismatch_text()]);
                v
            },
        }
    }

    /// `aarch64` or `riscv64`.
    pub fn arch_name(&self) -> (r: &'static str)
        ensures
            r@ == match *self {
                QemuCpuState::Aarch64(_) => seq!['a', 'a', 'r', 'c', 'h', '6', '4'],
                QemuCpuState::Riscv64(_) => seq!['r', 'i', 's', 'c', 'v', '6', '4'],
            },
    {
        match self {
            QemuCpuState::Aarch64(_) => aarch64_name(),
            QemuCpuState::Riscv64(_) => riscv64_name(),
        }
    }
}

impl From<Aarch64CpuState> for QemuCpuState {
    fn from(state: Aarch64CpuState) -> (r: Self) {
        QemuCpuState::Aarch64(state)
    }
}

impl vstd::std_specs::convert::FromSpecImpl<Aarch64CpuState> for QemuCpuState {
    open spec fn obeys_from_spec() -> bool {
        true
    }

    open spec fn from_spec(v: Aarch64CpuState) -> Self {
        QemuCpuState::Aarch64(v)
    }
}

impl From<RiscvCpuState> for QemuCpuState {
    fn from(state: RiscvCpuState) -> (r: Self) {
        QemuCpuState::Riscv64(state)
    }
}

impl vstd::std_specs::convert::FromSpecImpl<RiscvCpuState> for QemuCpuState {
    open spec fn obeys_from_spec() -> bool {
        true
    }

    open spec fn from_spec(v: RiscvCpuState) -> Self {
        QemuCpuState::Riscv64(v)
    }
}

/// Architecture-specific CPU state.
pub trait CpuState: Sized {
    fn num_gprs() -> usize;

    fn num_fprs() -> usize;

    fn diff(&self, other: &Self) -> Vec<String>;

    fn arch_name(&self) -> &'static str;
}

impl CpuState for Aarch64CpuState {
    fn num_gprs() -> (r: usize)
        ensures
            r == 31,
    {
        Self::NUM_GPRS
    }

    fn num_fprs() -> (r: usize)
        ensures
            r == 32,
    {
        Self::NUM_FPRS
    }

    fn diff(&self, other: &Self) -> (r: Vec<String>)
        ensures
            texts(r@) == self.diff_spec(other),
    {
        Aarch64CpuState::diff(self, other)
    }

    fn arch_name(&self) -> (r: &'static str)
        ensures
            r@ == seq!['a', 'a', 'r', 'c', 'h', '6', '4'],
    {
        aarch64_name()
    }
}

impl CpuState for RiscvCpuState {
    fn num_gprs() -> (r: usize)
        ensures
            r == 32,
    {
        Self::NUM_GPRS
    }

    fn num_fprs() -> (r: usize)
        ensures
            r == 32,
    {
        Self::NUM_FPRS
    }

    fn diff(&self, other: &Self) -> (r: Vec<String>)
        ensures
            texts(r@) == self.diff_spec(other),
    {
        RiscvCpuState::diff(self, other)
    }

    fn arch_name(&self) -> (r: &'static str)
        ensures
            r@ == seq!['r', 'i', 's', 'c', 'v', '6', '4'],
    {
        riscv64_name()
    }
}

/// A state reports no difference from itself, for either architecture.
pub proof fn law_diff_self_empty(s: QemuCpuState)
    ensures
        s.diff_spec(&s) == Seq::<Seq<char>>::empty(),
{
    assert forall|name: spec_fn(int) -> Seq<char>, a: Seq<nat>, w: nat, n: nat|
        #![trigger seq_diffs(name, a, a, w, n)]
        seq_diffs(name, a, a, w, n) == Seq::<Seq<char>>::empty() by {
        lemma_seq_diffs_same(name, a, w, n);
    }
    match s {
        QemuCpuState::Aarch64(a) => {
            assert(a.diff_spec(&a) =~= Seq::<Seq<char>>::empty());
        },
        QemuCpuState::Riscv64(r) => {
            assert(r.diff_spec(&r) =~= Seq::<Seq<char>>::empty());
        },
    }
}

/// The per-register report of `n` registers is empty exactly when the
/// registers agree, and grows by one line for each one that differs.
proof fn lemma_seq_diffs_empty(
    name: spec_fn(int) -> Seq<char>,
    a: Seq<nat>,
    b: Seq<nat>,
    w: nat,
    n: nat,
)
    ensures
        seq_diffs(name, a, b, w, n).len() == 0 <==> forall|i: int| 0 <= i < n ==> a[i] == b[i],
    decreases n,
{
    if n > 0 {
        lemma_seq_diffs_empty(name, a, b, w, (n - 1) as nat);
        if !(forall|i: int| 0 <= i < n - 1 ==> a[i] == b[i]) {
            let j = choose|i: int| 0 <= i < n - 1 && a[i] != b[i];
            assert(0 <= j < n && a[j] != b[j]);
        }
    }
}

/// Two AArch64 states report no difference exactly when they agree on the
/// general registers, SP, PC, PSTATE, the vector registers, FPCR and FPSR;
/// a difference in any one of them (PSTATE's flags included) is reported.
pub proof fn law_aarch64_diff_empty(a: Aarch64CpuState, b: Aarch64CpuState)
    ensures
        a.diff_spec(&b).len() == 0 <==> (a.xregs@ == b.xregs@ && a.sp == b.sp && a.pc == b.pc
            && a.pstate == b.pstate && a.vregs@ == b.vregs@ && a.fpcr == b.fpcr && a.fpsr
            == b.fpsr),
{
    let xa = nats_u64(a.xregs@);
    let xb = nats_u64(b.xregs@);
    let va = nats_u128(a.vregs@);
    let vb = nats_u128(b.vregs@);
    lemma_seq_diffs_empty(indexed(seq!['X']), xa, xb, 16, 31);
    lemma_seq_diffs_empty(indexed(seq!['V']), va, vb, 32, 32);
    assert((forall|i: int| 0 <= i < 31 ==> xa[i] == xb[i]) <==> a.xregs@ == b.xregs@) by {
        if forall|i: int| 0 <= i < 31 ==> xa[i] == xb[i] {
            assert forall|i: int| 0 <= i < 31 implies a.xregs@[i] == b.xregs@[i] by {
                assert(xa[i] == xb[i]);
            }
            assert(a.xregs@ =~= b.xregs@);
        }
    }
    assert((forall|i: int| 0 <= i < 32 ==> va[i] == vb[i]) <==> a.vregs@ == b.vregs@) by {
        if forall|i: int| 0 <= i < 32 ==> va[i] == vb[i] {
            assert forall|i: int| 0 <= i < 32 implies a.vregs@[i] == b.vregs@[i] by {
                assert(va[i] == vb[i]);
            }
            assert(a.vregs@ =~= b.vregs@);
        }
    }
}

/// Two RISC-V states report no difference exactly when they agree on the
/// integer and floating-point registers, PC, FCSR, the privilege level and
/// MSTATUS.
pub proof fn law_riscv_diff_empty(a: RiscvCpuState, b: RiscvCpuState)
    ensures
        a.diff_spec(&b).len() == 0 <==> (a.xregs@ == b.xregs@ && a.pc == b.pc && a.fregs@
            == b.fregs@ && a.fcsr == b.fcsr && a.privilege == b.privilege && a.mstatus
            == b.mstatus),
{
    let xa = nats_u64(a.xregs@);
    let xb = nats_u64(b.xregs@);
    let fa = nats_u64(a.fregs@);
    let fb = nats_u64(b.fregs@);
    lemma_seq_diffs_empty(table_name(RISCV_GPR_NAMES@), xa, xb, 16, 32);
    lemma_seq_diffs_empty(table_name(RISCV_FPR_NAMES@), fa, fb, 16, 32);
    assert((forall|i: int| 0 <= i < 32 ==> xa[i] == xb[i]) <==> a.xregs@ == b.xregs@) by {
        if forall|i: int| 0 <= i < 32 ==> xa[i] == xb[i] {
            assert forall|i: int| 0 <= i < 32 implies a.xregs@[i] == b.xregs@[i] by {
                assert(xa[i] == xb[i]);
            }
            assert(a.xregs@ =~= b.xregs@);
        }
    }
    assert((forall|i: int| 0 <= i < 32 ==> fa[i] == fb[i]) <==> a.fregs@ == b.fregs@) by {
        if forall|i: int| 0 <= i < 32 ==> fa[i] == fb[i] {
            assert forall|i: int| 0 <= i < 32 implies a.fregs@[i] == b.fregs@[i] by {
                assert(fa[i] == fb[i]);
            }
            assert(a.fregs@ =~= b.fregs@);
        }
    }
}

proof fn lemma_seq_diffs_same(name: spec_fn(int) -> Seq<char>, a: Seq<nat>, w: nat, n: nat)
    ensures
        seq_diffs(name, a, a, w, n) == Seq::<Seq<char>>::empty(),
    decreases n,
{
    if n > 0 {
        lemma_seq_diffs_same(name, a, w, (n - 1) as nat);
    }
}

} // verus!
