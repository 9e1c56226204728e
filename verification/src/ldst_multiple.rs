//! Planning of the AdvSIMD load/store multiple structures instructions
//! (LD1–LD4, ST1–ST4, multiple registers): which registers take part, the
//! memory accesses in order with their offsets from the base address and
//! the lanes they fill or read, and the base register writeback.

use vstd::prelude::*;

verus! {

/// Base register update after a post-indexed access.
#[derive(Clone, Copy, Debug, PartialEq, Eq, Structural)]
pub enum Writeback {
    /// By the total number of bytes transferred.
    Imm(u64),
    /// By the value of general-purpose register `rm`.
    Reg(u32),
}

/// What a load/store multiple structures instruction does.
#[derive(Clone, Copy, Debug, PartialEq, Eq, Structural)]
pub struct LdStMultiplePlan {
    pub load: bool,
    /// 128-bit registers (`Q` set) rather than 64-bit ones.
    pub q: bool,
    /// Base address register (31 is SP).
    pub rn: u32,
    /// First register of the list; the others follow modulo 32.
    pub rt: u32,
    /// Number of registers in the list.
    pub nregs: u32,
    /// LD2–LD4/ST2–ST4: elements are interleaved across the registers;
    /// otherwise (LD1/ST1) each register is transferred whole.
    pub interleaved: bool,
    /// Element size in bytes of an interleaved access.
    pub elem_bytes: u64,
    pub writeback: Option<Writeback>,
}

/// One memory access: `bytes` bytes at `offset` from the base address,
/// to or from bits `bit_off..` of the low (or, when `hi`, high) half of
/// vector register `reg`.
#[derive(Clone, Copy, Debug, PartialEq, Eq, Structural)]
pub struct Access {
    pub reg: u32,
    pub hi: bool,
    pub bit_off: u64,
    pub offset: u64,
    pub bytes: u64,
}

/// Number of registers of a contiguous LD1/ST1 by opcode.
pub open spec fn ld1_nregs(opcode: u32) -> Option<u32> {
    if opcode == 0b0111 {
        Some(1u32)
    } else if opcode == 0b1010 {
        Some(2u32)
    } else if opcode == 0b0110 {
        Some(3u32)
    } else if opcode == 0b0010 {
        Some(4u32)
    } else {
        None
    }
}

/// Number of registers of an interleaved LD2–LD4/ST2–ST4 by opcode.
pub open spec fn ldn_nregs(opcode: u32) -> Option<u32> {
    if opcode == 0b1000 {
        Some(2u32)
    } else if opcode == 0b0100 {
        Some(3u32)
    } else if opcode == 0b0000 {
        Some(4u32)
    } else {
        None
    }
}

/// Bytes in one register of the list.
pub open spec fn reg_bytes(q: bool) -> u64 {
    if q {
        16
    } else {
        8
    }
}

/// The plan of `insn` (`0 Q 001100 P L 0/Rm opcode size Rn Rt`), or `None`
/// when its opcode is none of LD1–LD4/ST1–ST4 multiple.
pub open spec fn ldst_multiple_spec(insn: u32) -> Option<LdStMultiplePlan> {
    let q = (insn >> 30u32) & 1 != 0;
    let load = (insn >> 22u32) & 1 != 0;
    let opcode = (insn >> 12u32) & 0xf;
    let size = (insn >> 10u32) & 3;
    let rn = (insn >> 5u32) & 0x1f;
    let rt = insn & 0x1f;
    let rm = (insn >> 16u32) & 0x1f;
    let post = (insn >> 23u32) & 1 != 0;
    let n = if ld1_nregs(opcode) is Some {
        ld1_nregs(opcode)
    } else {
        ldn_nregs(opcode)
    };
    match n {
        Some(nregs) => Some(
            LdStMultiplePlan {
                load,
                q,
                rn,
                rt,
                nregs,
                interleaved: ld1_nregs(opcode) is None,
                elem_bytes: if ld1_nregs(opcode) is Some {
                    8
                } else {
                    (1u64 << (size as u64)) as u64
                },
                writeback: if post && rn != 31 {
                    if rm == 31 {
                        Some(Writeback::Imm((nregs * reg_bytes(q)) as u64))
                    } else {
                        Some(Writeback::Reg(rm))
                    }
                } else {
                    None
                },
            },
        ),
        None => None,
    }
}

/// Number of accesses of a plan.
pub open spec fn access_count(p: LdStMultiplePlan) -> nat {
    if p.interleaved {
        (p.nregs * (reg_bytes(p.q) / p.elem_bytes)) as nat
    } else {
        (p.nregs * if p.q { 2int } else { 1int }) as nat
    }
}

/// Access `k` of a plan. LD1/ST1 moves each register whole, low half then
/// high half, at consecutive offsets. LD2–LD4/ST2–ST4 take element `k` of
/// memory from (or to) register `rt + k % nregs`, lane `k / nregs`.
pub open spec fn access_spec(p: LdStMultiplePlan, k: int) -> Access {
    if p.interleaved {
        let elem = k / (p.nregs as int);
        let bits = elem * p.elem_bytes * 8;
        Access {
            reg: ((p.rt + k % (p.nregs as int)) % 32) as u32,
            hi: bits >= 64,
            bit_off: (bits % 64) as u64,
            offset: (k * p.elem_bytes) as u64,
            bytes: p.elem_bytes,
        }
    } else {
        let per = if p.q { 2int } else { 1int };
        let i = k / per;
        let hi = k % per == 1;
        Access {
            reg: ((p.rt + i) % 32) as u32,
            hi,
            bit_off: 0,
            offset: (i * reg_bytes(p.q) + if hi { 8int } else { 0int }) as u64,
            bytes: 8,
        }
    }
}

/// A plan that some instruction has: one to four registers from a register
/// number below 32, and an element size that divides a register.
pub open spec fn plan_ok(p: LdStMultiplePlan) -> bool {
    &&& 1 <= p.nregs <= 4
    &&& p.rt < 32
    &&& if p.interleaved {
        p.elem_bytes == 1 || p.elem_bytes == 2 || p.elem_bytes == 4 || p.elem_bytes == 8
    } else {
        p.elem_bytes == 8
    }
}

/// The plan of a load/store multiple structures instruction.
pub fn fp_ldst_multiple_plan(insn: u32) -> (r: Option<LdStMultiplePlan>)
    ensures
        r == ldst_multiple_spec(insn),
        r matches Some(p) ==> plan_ok(p),
        ldst_multiple_facts(insn, r),
{
    proof {
        law_ldst_multiple_table(insn);
    }
    let q = (insn >> 30) & 1 != 0;
    let load = (insn >> 22) & 1 != 0;
    let opcode = (insn >> 12) & 0xf;
    let size = (insn >> 10) & 3;
    assert(size <= 3 && insn & 0x1f < 32) by (bit_vector)
        requires
            size == (insn >> 10u32) & 3,
    ;
    let rn = (insn >> 5) & 0x1f;
    let rt = insn & 0x1f;
    let rm = (insn >> 16) & 0x1f;
    let post = (insn >> 23) & 1 != 0;
    let ld1: Option<u32> = if opcode == 0b0111 {
        Some(1)
    } else if opcode == 0b1010 {
        Some(2)
    } else if opcode == 0b0110 {
        Some(3)
    } else if opcode == 0b0010 {
        Some(4)
    } else {
        None
    };
    let n: Option<u32> = match ld1 {
        Some(k) => Some(k),
        None => if opcode == 0b1000 {
            Some(2)
        } else if opcode == 0b0100 {
            Some(3)
        } else if opcode == 0b0000 {
            Some(4)
        } else {
            None
        },
    };
    match n {
        Some(nregs) => {
            let rb: u64 = if q { 16 } else { 8 };
            let elem_bytes: u64 = if ld1.is_some() { 8 } else { 1u64 << (size as u64) };
            assert(size <= 3 ==> (1u64 << (size as u64)) == 1 || (1u64 << (size as u64)) == 2 || (
            1u64 << (size as u64)) == 4 || (1u64 << (size as u64)) == 8) by (bit_vector);
            let writeback = if post && rn != 31 {
                if rm == 31 {
                    Some(Writeback::Imm(nregs as u64 * rb))
                } else {
                    Some(Writeback::Reg(rm))
                }
            } else {
                None
            };
            Some(
                LdStMultiplePlan {
                    load,
                    q,
                    rn,
                    rt,
                    nregs,
                    interleaved: ld1.is_none(),
                    elem_bytes,
                    writeback,
                },
            )
        },
        None => None,
    }
}

/// The A64 table of load/store multiple structures, stated on the fields
/// of `insn`: opcode 0111, 1010, 0110, 0010 are LD1/ST1 with one to four
/// whole registers; 1000, 0100, 0000 are LD2/ST2, LD3/ST3, LD4/ST4 with
/// elements of `1 << size` bytes interleaved over two to four registers;
/// every other opcode is none of them. Bit 22 selects a load, `Q` the
/// register width; a post-indexed form (bit 23) with a base other than SP
/// adds the transfer size (Rm = 31) or register Rm to the base.
pub open spec fn ldst_multiple_facts(insn: u32, r: Option<LdStMultiplePlan>) -> bool {
    let opcode = (insn >> 12u32) & 0xf;
    let size = (insn >> 10u32) & 3;
    let rn = (insn >> 5u32) & 0x1f;
    let rm = (insn >> 16u32) & 0x1f;
    let q = (insn >> 30u32) & 1 != 0;
    let count: Option<(u32, bool)> = if opcode == 0b0111 {
        Some((1u32, false))
    } else if opcode == 0b1010 {
        Some((2u32, false))
    } else if opcode == 0b0110 {
        Some((3u32, false))
    } else if opcode == 0b0010 {
        Some((4u32, false))
    } else if opcode == 0b1000 {
        Some((2u32, true))
    } else if opcode == 0b0100 {
        Some((3u32, true))
    } else if opcode == 0b0000 {
        Some((4u32, true))
    } else {
        None
    };
    match count {
        None => r is None,
        Some((n, inter)) => r matches Some(p) && {
            &&& p.nregs == n && p.interleaved == inter
            &&& p.load == ((insn >> 22u32) & 1 != 0) && p.q == q && p.rn == rn && p.rt == insn
                & 0x1f
            &&& inter ==> p.elem_bytes == (if size == 0 {
                1u64
            } else if size == 1 {
                2u64
            } else if size == 2 {
                4u64
            } else {
                8u64
            })
            &&& p.writeback == if (insn >> 23u32) & 1 != 0 && rn != 31 {
                if rm == 31 {
                    Some(Writeback::Imm((n * if q { 16int } else { 8int }) as u64))
                } else {
                    Some(Writeback::Reg(rm))
                }
            } else {
                None
            }
        },
    }
}

/// Every load/store multiple instruction decodes by the A64 table (see
/// `ldst_multiple_facts`).
pub proof fn law_ldst_multiple_table(insn: u32)
    ensures
        ldst_multiple_facts(insn, ldst_multiple_spec(insn)),
{
    let size = (insn >> 10u32) & 3;
    assert(size <= 3 ==> ((1u64 << (size as u64)) == if size == 0 {
        1u64
    } else if size == 1 {
        2u64
    } else if size == 2 {
        4u64
    } else {
        8u64
    })) by (bit_vector);
    assert(size <= 3) by (bit_vector)
        requires
            size == (insn >> 10u32) & 3,
    ;
}

/// The memory accesses of a plan, in the order they are made.
pub fn ldst_multiple_accesses(p: &LdStMultiplePlan) -> (v: Vec<Access>)
    requires
        plan_ok(*p),
    ensures
        v@.len() == access_count(*p),
        forall|k: int| 0 <= k < v@.len() ==> #[trigger] v@[k] == access_spec(*p, k),
{
    let rb: u64 = if p.q { 16 } else { 8 };
    let n = p.nregs as u64;
    let eb = p.elem_bytes;
    let per: u64 = if p.q { 2 } else { 1 };
    let per_reg: u64 = if p.interleaved { rb / eb } else { per };
    assert(per_reg <= 16 && n * per_reg <= 64) by (nonlinear_arith)
        requires
            n <= 4,
            eb >= 1,
            rb <= 16,
            per <= 2,
            per_reg == if p.interleaved { rb / eb } else { per },
    ;
    let total: u64 = n * per_reg;
    assert(total == access_count(*p));
    let mut v: Vec<Access> = Vec::new();
    let mut k: u64 = 0;
    while k < total
        invariant
            plan_ok(*p),
            k <= total <= 64,
            rb == reg_bytes(p.q),
            n == p.nregs,
            eb == p.elem_bytes,
            per == if p.q { 2u64 } else { 1u64 },
            v@.len() == k,
            forall|j: int| 0 <= j < k ==> #[trigger] v@[j] == access_spec(*p, j),
        decreases total - k,
    {
        let a = if p.interleaved {
            let elem = k / n;
            assert(elem * eb * 8 <= 64 * 64 && k * eb <= 64 * 8) by (nonlinear_arith)
                requires
                    elem <= k,
                    k < 64,
                    eb <= 8,
            ;
            let bits = elem * eb * 8;
            Access {
                reg: ((p.rt as u64 + k % n) % 32) as u32,
                hi: bits >= 64,
                bit_off: bits % 64,
                offset: k * eb,
                bytes: eb,
            }
        } else {
            let i = k / per;
            let hi = k % per == 1;
            assert(i * rb <= 64 * 16) by (nonlinear_arith)
                requires
                    i <= k,
                    k < 64,
                    rb <= 16,
            ;
            Access {
                reg: ((p.rt as u64 + i) % 32) as u32,
                hi,
                bit_off: 0,
                offset: i * rb + if hi { 8u64 } else { 0u64 },
                bytes: 8,
            }
        };
        assert(a == access_spec(*p, k as int));
        v.push(a);
        k += 1;
    }
    v
}

} // verus!
