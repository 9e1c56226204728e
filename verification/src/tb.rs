//! Translation blocks: the cached unit of translated guest code, the exit
//! value encoding shared with generated code, and the per-CPU jump cache.
//!
//! A TB is identified by its address, carried here as a `usize`.

pub mod cflags;

use vstd::prelude::*;

use crate::tb::cflags::CF_COUNT_MASK;

verus! {

/// Number of buckets in the global TB hash table.
pub const TB_HASH_SIZE: usize = 32768;

/// Number of entries in the per-CPU jump cache.
pub const TB_JMP_CACHE_SIZE: usize = 4096;

/// `goto_tb` slot 0: chainable exit.
pub const TB_EXIT_IDX0: u64 = 0;
/// `goto_tb` slot 1: chainable exit.
pub const TB_EXIT_IDX1: u64 = 1;
/// Indirect jump: exit without chaining.
pub const TB_EXIT_NOCHAIN: u64 = 2;
/// Every real exit code is at least this value.
pub const TB_EXIT_MAX: u64 = 3;

/// Guest exception exit codes.
pub const EXCP_ECALL: u64 = 3;
pub const EXCP_EBREAK: u64 = 4;
pub const EXCP_UNDEF: u64 = 5;

/// Mutable chaining state of a TB.
pub struct TbJmpState {
    /// Outgoing edge: destination TB for each exit slot.
    pub jmp_dest: [Option<usize>; 2],
    /// Incoming edges: (source TB, slot) pairs.
    pub jmp_list: Vec<(usize, usize)>,
}

impl TbJmpState {
    /// No outgoing and no incoming edges.
    pub fn new() -> (s: Self)
        ensures
            s.jmp_dest@ == seq![None::<usize>, None::<usize>],
            s.jmp_list@ == Seq::<(usize, usize)>::empty(),
    {
        TbJmpState { jmp_dest: [None, None], jmp_list: Vec::new() }
    }
}

/// A cached translated code block: the mapping from a guest code region to
/// generated host code.
pub struct TranslationBlock {
    pub pc: u64,
    pub cs_base: u64,
    pub flags: u32,
    pub cflags: u32,
    /// Size of the guest code in bytes.
    pub size: u32,
    pub icount: u16,
    pub host_offset: usize,
    pub host_size: usize,
    pub jmp_insn_offset: [Option<u32>; 2],
    pub jmp_reset_offset: [Option<u32>; 2],
    pub phys_pc: u64,
    /// Next TB in the hash bucket chain, or 0 at the end of the chain.
    pub hash_next: usize,
    /// Chaining state.
    pub jmp: TbJmpState,
    pub invalid: bool,
    /// Single-entry target cache for indirect exits; 0 means none.
    pub exit_target: usize,
    /// Execution count.
    pub exec_count: u64,
    /// Reached through an indirect jump.
    pub indirect_target: bool,
}

/// The bucket of `(pc, flags)` in the TB hash table: the low 15 bits of
/// `pc * 0x9e3779b97f4a7c15 (mod 2^64) XOR flags`.
pub open spec fn tb_hash_spec(pc: u64, flags: u32) -> nat {
    (((((pc as nat) * 0x9e3779b97f4a7c15nat) % 0x1_0000_0000_0000_0000nat) as u64 ^ (flags as u64))
        % 32768) as nat
}

impl TranslationBlock {
    /// A fresh, untranslated TB for `(pc, flags, cflags)`.
    pub open spec fn is_fresh(&self, pc: u64, flags: u32, cflags: u32) -> bool {
        &&& self.pc == pc && self.flags == flags && self.cflags == cflags
        &&& self.cs_base == 0 && self.size == 0 && self.icount == 0
        &&& self.host_offset == 0 && self.host_size == 0 && self.phys_pc == 0
        &&& self.jmp_insn_offset@ == seq![None::<u32>, None::<u32>]
        &&& self.jmp_reset_offset@ == seq![None::<u32>, None::<u32>]
        &&& self.hash_next == 0
        &&& self.jmp.jmp_dest@ == seq![None::<usize>, None::<usize>]
        &&& self.jmp.jmp_list@.len() == 0
        &&& !self.invalid && self.exit_target == 0 && self.exec_count == 0
        &&& !self.indirect_target
    }

    pub fn new(pc: u64, flags: u32, cflags: u32) -> (tb: Self)
        ensures
            tb.is_fresh(pc, flags, cflags),
    {
        TranslationBlock {
            pc,
            cs_base: 0,
            flags,
            cflags,
            size: 0,
            icount: 0,
            host_offset: 0,
            host_size: 0,
            jmp_insn_offset: [None, None],
            jmp_reset_offset: [None, None],
            phys_pc: 0,
            hash_next: 0,
            jmp: TbJmpState::new(),
            invalid: false,
            exit_target: 0,
            exec_count: 0,
            indirect_target: false,
        }
    }

    /// Hash bucket index for TB lookup.
    pub fn hash(pc: u64, flags: u32) -> (r: usize)
        ensures
            r == tb_hash_spec(pc, flags),
            r < TB_HASH_SIZE,
    {
        let h = pc.wrapping_mul(0x9e3779b97f4a7c15) ^ (flags as u64);
        let r = (h as usize) & (TB_HASH_SIZE - 1);
        assert(r == h % 32768 && r < 32768) by (bit_vector)
            requires
                r == (h as usize) & 32767usize,
        ;
        r
    }

    /// Records the offset of the `goto_tb` jump instruction for exit slot `n`.
    pub fn set_jmp_insn_offset(&mut self, n: usize, offset: u32)
        requires
            n < 2,
        ensures
            final(self).jmp_insn_offset@ == old(self).jmp_insn_offset@.update(n as int, Some(offset)),
            *final(self) == (TranslationBlock {
                jmp_insn_offset: final(self).jmp_insn_offset,
                ..*old(self)
            }),
    {
        self.jmp_insn_offset[n] = Some(offset);
    }

    /// Records the reset offset for exit slot `n`.
    pub fn set_jmp_reset_offset(&mut self, n: usize, offset: u32)
        requires
            n < 2,
        ensures
            final(self).jmp_reset_offset@ == old(self).jmp_reset_offset@.update(
                n as int,
                Some(offset),
            ),
            *final(self) == (TranslationBlock {
                jmp_reset_offset: final(self).jmp_reset_offset,
                ..*old(self)
            }),
    {
        self.jmp_reset_offset[n] = Some(offset);
    }

    /// Maximum number of guest instructions per TB: the count field of
    /// `cflags`, or 512 when it is zero.
    pub fn max_insns(cflags: u32) -> (r: u32)
        ensures
            r == if cflags % 0x1_0000 == 0 {
                512
            } else {
                cflags % 0x1_0000
            },
    {
        let count = cflags & CF_COUNT_MASK;
        assert(count == cflags % 0x1_0000) by (bit_vector)
            requires
                count == cflags & 0xffff,
        ;
        if count == 0 {
            512
        } else {
            count
        }
    }
}

/// The `exit_tb` return value for TB `tb_ptr` and exit value `val`.
pub open spec fn encode_tb_exit_spec(tb_ptr: usize, val: u64) -> usize {
    if val < TB_EXIT_MAX {
        tb_ptr | (val as usize)
    } else {
        val as usize
    }
}

/// The `(source TB, exit code)` pair that a raw exit value stands for.
pub open spec fn decode_tb_exit_spec(raw: usize) -> (Option<usize>, usize) {
    if raw > 7 {
        (Some(raw & !7usize), raw & 7)
    } else {
        (None, raw)
    }
}

/// Encodes an `exit_tb` return value. Chainable exits (`val < 3`) carry the
/// TB address OR'd with the slot; real exits are returned as they are.
pub fn encode_tb_exit(tb_ptr: usize, val: u64) -> (r: usize)
    ensures
        r == encode_tb_exit_spec(tb_ptr, val),
{
    if val < TB_EXIT_MAX {
        tb_ptr | (val as usize)
    } else {
        val as usize
    }
}

/// Decodes an `exit_tb` return value into `(source TB, exit code)`. Values
/// above 7 are chainable exits: the high bits are the TB address and the low
/// three bits the slot. Smaller values are real exit codes with no TB.
pub fn decode_tb_exit(raw: usize) -> (r: (Option<usize>, usize))
    ensures
        r == decode_tb_exit_spec(raw),
{
    if raw > 7 {
        let slot = raw & 7;
        let tb_ptr = raw & !7;
        (Some(tb_ptr), slot)
    } else {
        (None, raw)
    }
}

/// Decoding undoes encoding: a chainable exit of an 8-byte aligned, non-null
/// TB gives back that TB and its slot, and a real exit code of at most 7
/// gives back that code with no TB.
pub proof fn law_tb_exit_roundtrip(tb_ptr: usize, val: u64)
    requires
        val < TB_EXIT_MAX ==> tb_ptr % 8 == 0 && tb_ptr != 0,
        val <= 7,
    ensures
        val < TB_EXIT_MAX ==> decode_tb_exit_spec(encode_tb_exit_spec(tb_ptr, val)) == (
        Some(tb_ptr), val as usize),
        val >= TB_EXIT_MAX ==> decode_tb_exit_spec(encode_tb_exit_spec(tb_ptr, val)) == (
        None::<usize>, val as usize),
{
    if val < TB_EXIT_MAX {
        let v = val as usize;
        assert(v < 3);
        assert((tb_ptr | v) > 7 && (tb_ptr | v) & !7usize == tb_ptr && (tb_ptr | v) & 7 == v)
            by (bit_vector)
            requires
                tb_ptr % 8 == 0,
                tb_ptr != 0,
                v < 3,
        ;
    }
}

/// Position of `pc` in the jump cache: bits 2..14 of the PC.
pub open spec fn jc_index(pc: u64) -> int {
    ((pc / 4) % 4096) as int
}

/// Per-CPU direct-mapped TB jump cache. Each entry holds a TB address, or
/// 0 when empty. Every cache built by `new` has `TB_JMP_CACHE_SIZE` entries,
/// and the operations keep that length.
pub struct JumpCache {
    entries: Vec<usize>,
}

impl JumpCache {
    /// The cache contents, one entry per index.
    pub closed spec fn view(&self) -> Seq<usize> {
        self.entries@
    }

    /// What a lookup of `pc` gives on the contents `c`.
    pub open spec fn lookup_spec(c: Seq<usize>, pc: u64) -> Option<usize> {
        if c[jc_index(pc)] == 0 {
            None
        } else {
            Some(c[jc_index(pc)])
        }
    }

    /// An empty cache.
    pub fn new() -> (c: Self)
        ensures
            c@ == Seq::new(TB_JMP_CACHE_SIZE as nat, |i: int| 0usize),
    {
        let mut entries: Vec<usize> = Vec::new();
        let mut i: usize = 0;
        while i < TB_JMP_CACHE_SIZE
            invariant
                i <= TB_JMP_CACHE_SIZE,
                entries@ == Seq::new(i as nat, |j: int| 0usize),
            decreases TB_JMP_CACHE_SIZE - i,
        {
            entries.push(0);
            i += 1;
        }
        JumpCache { entries }
    }

    /// Index of `pc` in the cache.
    pub fn index(pc: u64) -> (r: usize)
        ensures
            r == jc_index(pc),
            r < TB_JMP_CACHE_SIZE,
    {
        let r = ((pc as usize) >> 2) & (TB_JMP_CACHE_SIZE - 1);
        assert(r == (pc / 4) % 4096 && r < 4096) by (bit_vector)
            requires
                r == ((pc as usize) >> 2) & 4095usize,
        ;
        r
    }

    /// The cached TB for `pc`, or `None` when that entry is empty.
    pub fn lookup(&self, pc: u64) -> (r: Option<usize>)
        requires
            self@.len() == TB_JMP_CACHE_SIZE,
        ensures
            r == Self::lookup_spec(self@, pc),
    {
        let raw = self.entries[Self::index(pc)];
        if raw == 0 {
            None
        } else {
            Some(raw)
        }
    }

    /// Caches `tb` at the entry of `pc`.
    pub fn insert(&mut self, pc: u64, tb: usize)
        requires
            old(self)@.len() == TB_JMP_CACHE_SIZE,
        ensures
            final(self)@ == old(self)@.update(jc_index(pc), tb),
    {
        let i = Self::index(pc);
        self.entries.set(i, tb);
    }

    /// Empties the entry of `pc`.
    pub fn remove(&mut self, pc: u64)
        requires
            old(self)@.len() == TB_JMP_CACHE_SIZE,
        ensures
            final(self)@ == old(self)@.update(jc_index(pc), 0usize),
    {
        let i = Self::index(pc);
        self.entries.set(i, 0);
    }

    /// Empties every entry.
    pub fn invalidate(&mut self)
        requires
            old(self)@.len() == TB_JMP_CACHE_SIZE,
        ensures
            final(self)@ == Seq::new(TB_JMP_CACHE_SIZE as nat, |i: int| 0usize),
    {
        let mut i: usize = 0;
        while i < TB_JMP_CACHE_SIZE
            invariant
                self.entries@.len() == TB_JMP_CACHE_SIZE,
                i <= TB_JMP_CACHE_SIZE,
                forall|j: int| 0 <= j < i ==> self.entries@[j] == 0usize,
            decreases TB_JMP_CACHE_SIZE - i,
        {
            self.entries.set(i, 0);
            i += 1;
        }
        assert(self.entries@ =~= Seq::new(TB_JMP_CACHE_SIZE as nat, |i: int| 0usize));
    }
}

impl Default for JumpCache {
    fn default() -> (c: Self)
        ensures
            c@ == Seq::new(TB_JMP_CACHE_SIZE as nat, |i: int| 0usize),
    {
        Self::new()
    }
}

/// A lookup right after inserting a non-null TB for a PC finds that TB; an
/// insert leaves the entries of PCs at other indices alone; after removing a
/// PC or invalidating, the lookup finds nothing.
pub proof fn law_jump_cache_read_after_write(c: Seq<usize>, pc: u64, other: u64, tb: usize)
    requires
        c.len() == TB_JMP_CACHE_SIZE,
    ensures
        tb != 0 ==> JumpCache::lookup_spec(c.update(jc_index(pc), tb), pc) == Some(tb),
        jc_index(other) != jc_index(pc) ==> JumpCache::lookup_spec(
            c.update(jc_index(pc), tb),
            other,
        ) == JumpCache::lookup_spec(c, other),
        JumpCache::lookup_spec(c.update(jc_index(pc), 0usize), pc) == None::<usize>,
        JumpCache::lookup_spec(Seq::new(TB_JMP_CACHE_SIZE as nat, |i: int| 0usize), pc) == None::<
            usize,
        >,
{
    assert(0 <= jc_index(pc) < 4096);
    assert(0 <= jc_index(other) < 4096);
}

} // verus!
