//! Pieces of the execution engine: loop statistics, exit reasons, the AOT
//! function table and TB naming for the LLVM backend.

use std::collections::HashMap;

use vstd::prelude::*;

use crate::text::dec_text;

verus! {

broadcast use vstd::std_specs::hash::group_hash_axioms;

/// Counters of the execution loop.
#[derive(Clone, Copy, Debug)]
pub struct ExecStats {
    pub loop_iters: u64,
    pub jc_hit: u64,
    pub ht_hit: u64,
    pub translate: u64,
    pub chain_exit: [u64; 2],
    pub nochain_exit: u64,
    pub real_exit: u64,
    pub chain_patched: u64,
    pub chain_already: u64,
    pub hint_used: u64,
    pub exit_target_hit: u64,
    pub exit_target_miss: u64,
}

impl ExecStats {
    /// Every counter is zero.
    pub open spec fn is_zero(&self) -> bool {
        &&& self.loop_iters == 0 && self.jc_hit == 0 && self.ht_hit == 0 && self.translate == 0
        &&& self.chain_exit[0] == 0 && self.chain_exit[1] == 0
        &&& self.nochain_exit == 0 && self.real_exit == 0
        &&& self.chain_patched == 0 && self.chain_already == 0 && self.hint_used == 0
        &&& self.exit_target_hit == 0 && self.exit_target_miss == 0
    }

    pub fn new() -> (s: Self)
        ensures
            s.is_zero(),
    {
        ExecStats {
            loop_iters: 0,
            jc_hit: 0,
            ht_hit: 0,
            translate: 0,
            chain_exit: [0, 0],
            nochain_exit: 0,
            real_exit: 0,
            chain_patched: 0,
            chain_already: 0,
            hint_used: 0,
            exit_target_hit: 0,
            exit_target_miss: 0,
        }
    }

    /// Number of TB lookups: jump-cache hits, hash-table hits and translations.
    pub fn total_lookups(&self) -> (r: u64)
        requires
            self.jc_hit + self.ht_hit + self.translate <= u64::MAX,
        ensures
            r == self.jc_hit + self.ht_hit + self.translate,
    {
        self.jc_hit + self.ht_hit + self.translate
    }
}

impl Default for ExecStats {
    fn default() -> (s: Self)
        ensures
            s.is_zero(),
    {
        Self::new()
    }
}

/// Why the execution loop returned.
#[derive(Debug, Clone, Copy, PartialEq, Eq, Structural)]
pub enum ExitReason {
    /// A real exit with its exit code.
    Exit(usize),
    /// The code buffer is too full to translate another TB.
    BufferFull,
}

/// Ahead-of-time compiled functions by guest PC.
pub struct AotTable {
    pub funcs: HashMap<u64, u64>,
}

impl AotTable {
    /// The table of the given functions.
    pub fn new(funcs: HashMap<u64, u64>) -> (t: Self)
        ensures
            t.funcs@ == funcs@,
    {
        AotTable { funcs }
    }

    /// Address of the function for `pc`, if there is one.
    pub fn lookup(&self, pc: u64) -> (r: Option<u64>)
        ensures
            r == if self.funcs@.contains_key(pc) {
                Some(self.funcs@[pc])
            } else {
                None
            },
    {
        match self.funcs.get(&pc) {
            Some(f) => Some(*f),
            None => None,
        }
    }
}

/// Names the functions that the LLVM backend compiles, one per TB.
pub struct LlvmJit {
    tb_counter: u64,
}

/// The name of the `n`-th compiled TB: `tb_<n>`.
pub open spec fn tb_name(n: nat) -> Seq<char> {
    seq!['t', 'b', '_'] + dec_text(n)
}

impl LlvmJit {
    /// TBs named so far.
    pub closed spec fn spec_counter(&self) -> u64 {
        self.tb_counter
    }

    pub fn new() -> (j: Self)
        ensures
            j.spec_counter() == 0,
    {
        LlvmJit { tb_counter: 0 }
    }

    /// A fresh function name: `tb_<n>` for the `n`-th call.
    pub fn next_tb_name(&mut self) -> (r: String)
        requires
            old(self).spec_counter() < u64::MAX,
        ensures
            r@ == tb_name(old(self).spec_counter() as nat),
            final(self).spec_counter() == old(self).spec_counter() + 1,
    {
        proof {
            reveal_strlit("tb_");
            assert("tb_"@ == seq!['t', 'b', '_']);
        }
        let n = self.tb_counter;
        self.tb_counter += 1;
        crate::text::indexed_name("tb_", n as u128)
    }
}

/// Different counters give different names, so the names handed out are
/// all distinct.
pub proof fn law_tb_names_distinct(m: nat, n: nat)
    requires
        m != n,
    ensures
        tb_name(m) != tb_name(n),
{
    lemma_dec_text_injective(m, n);
    if tb_name(m) == tb_name(n) {
        assert(dec_text(m) =~= tb_name(m).subrange(3, tb_name(m).len() as int));
        assert(dec_text(n) =~= tb_name(n).subrange(3, tb_name(n).len() as int));
    }
}

proof fn lemma_dec_text_injective(m: nat, n: nat)
    requires
        m != n,
    ensures
        dec_text(m) != dec_text(n),
    decreases m + n,
{
    let (a, b) = (dec_text(m), dec_text(n));
    if m < 10 && n < 10 {
        assert(a[0] != b[0]);
    } else if m < 10 {
        lemma_dec_text_len(n / 10);
        assert(a.len() == 1);
    } else if n < 10 {
        lemma_dec_text_len(m / 10);
        assert(b.len() == 1);
    } else if m % 10 != n % 10 {
        assert(a.last() != b.last());
    } else {
        assert(m / 10 != n / 10);
        lemma_dec_text_injective(m / 10, n / 10);
        if a == b {
            assert(a.drop_last() =~= dec_text(m / 10));
            assert(b.drop_last() =~= dec_text(n / 10));
        }
    }
}

proof fn lemma_dec_text_len(n: nat)
    ensures
        dec_text(n).len() >= 1,
    decreases n,
{
    if n >= 10 {
        lemma_dec_text_len(n / 10);
    }
}

} // verus!
