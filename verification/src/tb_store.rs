//! Storage of all translation blocks and the hash table through which they
//! are found again by `(pc, flags)`.
//!
//! The store owns its TBs. A TB is named by a handle: a nonzero `usize`
//! (its position in the store plus one), so that 0 can stand for "none" in
//! the hash chains and in the chaining fields, as a null address would.
//! Each hash bucket holds the head of a chain that runs through the
//! `hash_next` fields of its TBs.

use vstd::prelude::*;

use crate::exec::ExecStats;
use crate::tb::{jc_index, tb_hash_spec, JumpCache, TranslationBlock, TB_HASH_SIZE, TB_JMP_CACHE_SIZE};

verus! {

/// A TB that a lookup of `(pc, flags)` accepts: still valid, with that key,
/// and already translated.
pub open spec fn tb_matches(tb: TranslationBlock, pc: u64, flags: u32) -> bool {
    &&& !tb.invalid
    &&& tb.pc == pc
    &&& tb.flags == flags
    &&& tb.host_size > 0
}

/// The first handle from position `k` of `chain` whose TB matches.
pub open spec fn first_match(
    chain: Seq<usize>,
    tbs: Seq<TranslationBlock>,
    pc: u64,
    flags: u32,
    k: int,
) -> Option<usize>
    decreases chain.len() - k,
{
    if k < 0 || k >= chain.len() {
        None
    } else if tb_matches(tbs[chain[k] - 1], pc, flags) {
        Some(chain[k])
    } else {
        first_match(chain, tbs, pc, flags, k + 1)
    }
}

/// The hash bucket of a TB.
pub open spec fn bucket_of(tb: TranslationBlock) -> int {
    tb_hash_spec(tb.pc, tb.flags) as int
}

/// Every chaining edge of `tb` names one of the handles `1..=n`, every
/// incoming edge names an exit slot, and the cached indirect target is 0
/// or one of those handles.
pub open spec fn edges_within(tb: TranslationBlock, n: nat) -> bool {
    &&& tb.exit_target == 0 || 1 <= tb.exit_target <= n
    &&& forall|i: int|
        0 <= i < tb.jmp.jmp_list@.len() ==> 1 <= (#[trigger] tb.jmp.jmp_list@[i]).0 <= n
            && tb.jmp.jmp_list@[i].1 < 2
    &&& forall|s: int|
        0 <= s < 2 ==> match #[trigger] tb.jmp.jmp_dest@[s] {
            Some(d) => 1 <= d <= n,
            None => true,
        }
}

/// `tb` with its chain link replaced.
pub open spec fn with_hash_next(tb: TranslationBlock, next: usize) -> TranslationBlock {
    TranslationBlock { hash_next: next, ..tb }
}

/// `after` is `before` with TB `h` linked in front of the chain of its
/// bucket, its link pointing to the old head (0 for an empty chain).
pub open spec fn inserted(before: TbStore, after: TbStore, h: usize) -> bool {
    let b = bucket_of(before.tb(h));
    let c = before.chains()[b];
    &&& after.chains() == before.chains().update(b, seq![h] + c)
    &&& after.tbs() == before.tbs().update(
        h - 1,
        with_hash_next(
            before.tb(h),
            if c.len() == 0 {
                0
            } else {
                c[0]
            },
        ),
    )
}

/// Whether `tb_add_jump(src, slot, dst)` records a new edge: the slot has
/// a jump instruction, `dst` is valid and the slot does not already point
/// to it.
pub open spec fn jump_patched(before: TbStore, src: usize, slot: usize, dst: usize) -> bool {
    &&& before.tb(src).jmp_insn_offset@[slot as int] is Some
    &&& !before.tb(dst).invalid
    &&& before.tb(src).jmp.jmp_dest@[slot as int] != Some(dst)
}

/// The patch that `tb_add_jump(src, slot, dst)` returns: the offset of the
/// slot's jump instruction and the host offset of `dst`, when it records a
/// new edge.
pub open spec fn add_jump_result(before: TbStore, src: usize, slot: usize, dst: usize) -> Option<
    (usize, usize),
> {
    if jump_patched(before, src, slot, dst) {
        Some(
            (
                before.tb(src).jmp_insn_offset@[slot as int]->0 as usize,
                before.tb(dst).host_offset,
            ),
        )
    } else {
        None
    }
}

/// The statistics after `tb_add_jump(src, slot, dst)`: a new edge counts
/// as patched, an edge that is already there as already chained.
pub open spec fn add_jump_stats(before: TbStore, s: ExecStats, src: usize, slot: usize, dst: usize) -> ExecStats {
    if jump_patched(before, src, slot, dst) {
        ExecStats { chain_patched: (s.chain_patched + 1) as u64, ..s }
    } else if before.tb(src).jmp_insn_offset@[slot as int] is Some && !before.tb(dst).invalid {
        ExecStats { chain_already: (s.chain_already + 1) as u64, ..s }
    } else {
        s
    }
}

/// The TBs after `tb_add_jump(src, slot, dst)`: the edge recorded on both
/// ends when it is new, else unchanged; the hash table is unchanged.
pub open spec fn jump_added(before: TbStore, after: TbStore, src: usize, slot: usize, dst: usize) -> bool {
    &&& after.chains() == before.chains()
    &&& if jump_patched(before, src, slot, dst) {
        chained(before.tbs(), after.tbs(), src, slot, dst)
    } else {
        after.tbs() == before.tbs()
    }
}

/// Owner of all TBs and the `(pc, flags)` hash table.
pub struct TbStore {
    tbs: Vec<TranslationBlock>,
    buckets: Vec<Option<usize>>,
    chains: Ghost<Seq<Seq<usize>>>,
}

impl TbStore {
    /// The TBs, in allocation order: handle `h` names entry `h - 1`.
    pub closed spec fn tbs(&self) -> Seq<TranslationBlock> {
        self.tbs@
    }

    /// For each bucket, the handles of its chain from head to tail.
    pub closed spec fn chains(&self) -> Seq<Seq<usize>> {
        self.chains@
    }

    /// `h` names a TB of this store.
    pub open spec fn is_handle(&self, h: usize) -> bool {
        1 <= h <= self.tbs().len()
    }

    /// The TB named by `h`.
    pub open spec fn tb(&self, h: usize) -> TranslationBlock {
        self.tbs()[h - 1]
    }

    /// `h` is linked into the hash chain of its bucket.
    pub open spec fn in_table(&self, h: usize) -> bool {
        self.chains()[bucket_of(self.tb(h))].contains(h)
    }

    /// What a lookup of `(pc, flags)` returns.
    pub open spec fn lookup_spec(&self, pc: u64, flags: u32) -> Option<usize> {
        first_match(self.chains()[tb_hash_spec(pc, flags) as int], self.tbs(), pc, flags, 0)
    }

    spec fn chain_ok_with(&self, b: int, ts: Seq<TranslationBlock>) -> bool {
        let c = self.chains@[b];
        &&& self.buckets@[b] == if c.len() == 0 {
            None
        } else {
            Some(c[0])
        }
        &&& c.no_duplicates()
        &&& forall|k: int| 0 <= k < c.len() ==> 1 <= #[trigger] c[k] <= ts.len()
        &&& forall|k: int|
            0 <= k < c.len() ==> (#[trigger] ts[c[k] - 1]).hash_next == if k + 1 < c.len() {
                c[k + 1]
            } else {
                0
            }
        &&& forall|k: int| 0 <= k < c.len() ==> bucket_of(#[trigger] ts[c[k] - 1]) == b
    }

    #[verifier::inline]
    spec fn chain_ok(&self, b: int) -> bool {
        self.chain_ok_with(b, self.tbs@)
    }

    spec fn wf_with(&self, ts: Seq<TranslationBlock>) -> bool {
        &&& self.buckets@.len() == TB_HASH_SIZE
        &&& self.chains@.len() == TB_HASH_SIZE
        &&& ts.len() < usize::MAX
        &&& forall|b: int| 0 <= b < TB_HASH_SIZE ==> #[trigger] self.chain_ok_with(b, ts)
        &&& forall|g: int| 0 <= g < ts.len() ==> edges_within(#[trigger] ts[g], ts.len())
    }

    /// The store's invariant: one chain per bucket, the bucket holding its
    /// head and each TB's link the next handle (0 at the tail); no handle
    /// twice in a chain; each TB in the chain of its own bucket; and every
    /// chaining edge naming a TB of the store.
    pub closed spec fn wf(&self) -> bool {
        self.wf_with(self.tbs@)
    }

    /// An empty store with an empty hash table.
    pub fn new() -> (s: Self)
        ensures
            s.wf(),
            s.tbs().len() == 0,
            forall|b: int| 0 <= b < TB_HASH_SIZE ==> (#[trigger] s.chains()[b]).len() == 0,
    {
        let mut buckets: Vec<Option<usize>> = Vec::new();
        let mut i: usize = 0;
        while i < TB_HASH_SIZE
            invariant
                i <= TB_HASH_SIZE,
                buckets@ == Seq::new(i as nat, |j: int| None::<usize>),
            decreases TB_HASH_SIZE - i,
        {
            buckets.push(None);
            i += 1;
        }
        let s = TbStore {
            tbs: Vec::new(),
            buckets,
            chains: Ghost(Seq::new(TB_HASH_SIZE as nat, |b: int| Seq::<usize>::empty())),
        };
        assert forall|b: int| 0 <= b < TB_HASH_SIZE implies #[trigger] s.chain_ok(b) by {
            assert(s.chains@[b].len() == 0);
        }
        s
    }

    /// Number of TBs in the store.
    pub fn len(&self) -> (r: usize)
        ensures
            r == self.tbs().len(),
    {
        self.tbs.len()
    }

    /// The store holds no TB.
    pub fn is_empty(&self) -> (r: bool)
        ensures
            r == (self.tbs().len() == 0),
    {
        self.len() == 0
    }

    /// Creates a fresh TB for `(pc, flags, cflags)` and returns its handle.
    /// The TB is not yet in the hash table.
    pub fn allocate(&mut self, pc: u64, flags: u32, cflags: u32) -> (h: usize)
        requires
            old(self).wf(),
            old(self).tbs().len() + 1 < usize::MAX,
        ensures
            final(self).wf(),
            h == old(self).tbs().len() + 1,
            final(self).tbs().len() == h,
            final(self).tbs().drop_last() == old(self).tbs(),
            final(self).tb(h).is_fresh(pc, flags, cflags),
            final(self).chains() == old(self).chains(),
            !final(self).in_table(h),
    {
        let tb = TranslationBlock::new(pc, flags, cflags);
        self.tbs.push(tb);
        let h = self.tbs.len();
        proof {
            let n = self.tbs@.len();
            assert(self.tbs@.drop_last() =~= old(self).tbs@);
            assert forall|b: int| 0 <= b < TB_HASH_SIZE implies #[trigger] self.chain_ok(b) by {
                assert(old(self).chain_ok(b));
                let c = self.chains@[b];
                assert forall|k: int| 0 <= k < c.len() implies (#[trigger] self.tbs@[c[k]
                    - 1]).hash_next == if k + 1 < c.len() {
                    c[k + 1]
                } else {
                    0
                } by {
                    assert(1 <= c[k] <= old(self).tbs@.len());
                }
                assert forall|k: int| 0 <= k < c.len() implies bucket_of(
                    #[trigger] self.tbs@[c[k] - 1],
                ) == b by {
                    assert(1 <= c[k] <= old(self).tbs@.len());
                }
            }
            assert forall|g: int| 0 <= g < n implies edges_within(
                #[trigger] self.tbs@[g],
                n,
            ) by {
                if g < n - 1 {
                    assert(edges_within(old(self).tbs@[g], (n - 1) as nat));
                }
            }
            let b = bucket_of(self.tb(h));
            assert(old(self).chain_ok(b));
            if self.chains@[b].contains(h) {
                let k = choose|k: int| 0 <= k < self.chains@[b].len() && self.chains@[b][k] == h;
                assert(1 <= self.chains@[b][k] <= old(self).tbs@.len());
            }
        }
        h
    }

    /// The TB named by `h`.
    pub fn get(&self, h: usize) -> (r: &TranslationBlock)
        requires
            self.is_handle(h),
        ensures
            *r == self.tb(h),
    {
        &self.tbs[h - 1]
    }

    /// Mutable access to the TB named by `h`, for filling in its translation
    /// before it is linked into the hash table. The store stays well formed
    /// when the caller leaves the chaining state alone and, for a TB already
    /// in the table, also its key and chain link.
    pub fn get_mut(&mut self, h: usize) -> (r: &mut TranslationBlock)
        requires
            old(self).wf(),
            old(self).is_handle(h),
        ensures
            *r == old(self).tb(h),
            final(self).tbs() == old(self).tbs().update(h - 1, *final(r)),
            final(self).chains() == old(self).chains(),
            keeps_links(old(self).tb(h), *final(r), old(self).in_table(h)) ==> final(self).wf(),
    {
        let ghost pre = *self;
        proof {
            lemma_update_keeping_links(pre, h);
        }
        &mut self.tbs[h - 1]
    }

    /// Caches `dst` as the indirect-exit target of `src`.
    pub fn set_exit_target(&mut self, src: usize, dst: usize)
        requires
            old(self).wf(),
            old(self).is_handle(src),
            old(self).is_handle(dst),
        ensures
            final(self).wf(),
            final(self).chains() == old(self).chains(),
            final(self).tbs() == old(self).tbs().update(
                src - 1,
                TranslationBlock { exit_target: dst, ..old(self).tb(src) },
            ),
    {
        let ghost pre = *self;
        self.tbs[src - 1].exit_target = dst;
        proof {
            let ts = self.tbs@;
            assert forall|g: int| 0 <= g < ts.len() implies (#[trigger] ts[g]).pc == pre.tbs@[g].pc
                && ts[g].flags == pre.tbs@[g].flags && ts[g].hash_next == pre.tbs@[g].hash_next
                && edges_within(ts[g], ts.len()) by {
                assert(edges_within(pre.tbs@[g], ts.len()));
            }
            lemma_keys_kept(pre, ts);
        }
    }

    /// Marks TB `h` as reached through an indirect jump.
    pub fn mark_indirect_target(&mut self, h: usize)
        requires
            old(self).wf(),
            old(self).is_handle(h),
        ensures
            final(self).wf(),
            final(self).chains() == old(self).chains(),
            final(self).tbs() == old(self).tbs().update(
                h - 1,
                TranslationBlock { indirect_target: true, ..old(self).tb(h) },
            ),
    {
        let ghost pre = *self;
        self.tbs[h - 1].indirect_target = true;
        proof {
            let ts = self.tbs@;
            assert forall|g: int| 0 <= g < ts.len() implies (#[trigger] ts[g]).pc == pre.tbs@[g].pc
                && ts[g].flags == pre.tbs@[g].flags && ts[g].hash_next == pre.tbs@[g].hash_next
                && edges_within(ts[g], ts.len()) by {
                assert(edges_within(pre.tbs@[g], ts.len()));
            }
            lemma_keys_kept(pre, ts);
        }
    }

    /// Looks up a valid, translated TB for `(pc, flags)`: the first one in
    /// the chain of that key's bucket, or `None`.
    pub fn lookup(&self, pc: u64, flags: u32) -> (r: Option<usize>)
        requires
            self.wf(),
        ensures
            r == self.lookup_spec(pc, flags),
    {
        let bucket = TranslationBlock::hash(pc, flags);
        proof {
            assert(self.chain_ok(bucket as int));
        }
        let ghost c = self.chains@[bucket as int];
        let mut cur = match self.buckets[bucket] {
            Some(raw) => raw,
            None => {
                return None;
            },
        };
        let ghost mut k: int = 0;
        loop
            invariant
                self.wf(),
                bucket < TB_HASH_SIZE,
                bucket == tb_hash_spec(pc, flags),
                c == self.chains@[bucket as int],
                self.chain_ok(bucket as int),
                0 <= k < c.len(),
                cur == c[k],
                first_match(c, self.tbs@, pc, flags, 0) == first_match(c, self.tbs@, pc, flags, k),
            decreases c.len() - k,
        {
            assert(1 <= c[k] <= self.tbs@.len());
            let tb = &self.tbs[cur - 1];
            if !tb.invalid && tb.pc == pc && tb.flags == flags && tb.host_size > 0 {
                return Some(cur);
            }
            let next_raw = tb.hash_next;
            assert(self.tbs@[c[k] - 1].hash_next == if k + 1 < c.len() {
                c[k + 1]
            } else {
                0
            });
            if next_raw == 0 {
                proof {
                    if k + 1 < c.len() {
                        assert(1 <= c[k + 1]);
                    }
                    assert(first_match(c, self.tbs@, pc, flags, k + 1) == None::<usize>);
                }
                return None;
            }
            cur = next_raw;
            proof {
                k = k + 1;
            }
        }
    }

    /// Links TB `h` into its bucket's chain, in front of the current head.
    pub fn insert(&mut self, h: usize)
        requires
            old(self).wf(),
            old(self).is_handle(h),
            !old(self).in_table(h),
        ensures
            final(self).wf(),
            inserted(*old(self), *final(self), h),
    {
        let ghost b = bucket_of(self.tb(h));
        let bucket = TranslationBlock::hash(self.tbs[h - 1].pc, self.tbs[h - 1].flags);
        proof {
            assert(self.chain_ok(b));
        }
        let ghost c = self.chains@[b];
        let old_head = match self.buckets[bucket] {
            Some(raw) => raw,
            None => 0,
        };
        self.tbs[h - 1].hash_next = old_head;
        self.buckets.set(bucket, Some(h));
        proof {
            self.chains@ = self.chains@.update(b, seq![h] + c);
            assert(self.tbs@ =~= old(self).tbs@.update(
                h - 1,
                with_hash_next(old(self).tb(h), old_head),
            ));
            lemma_not_in_other_chains(*old(self), h);
            assert forall|bb: int| 0 <= bb < TB_HASH_SIZE implies #[trigger] self.chain_ok(bb) by {
                assert(old(self).chain_ok(bb));
                let cc = self.chains@[bb];
                if bb == b {
                    assert forall|k: int| 0 <= k < cc.len() implies 1 <= #[trigger] cc[k]
                        <= self.tbs@.len() by {
                        if k > 0 {
                            assert(cc[k] == c[k - 1]);
                        }
                    }
                    assert forall|k: int| 0 <= k < cc.len() implies (#[trigger] self.tbs@[cc[k]
                        - 1]).hash_next == if k + 1 < cc.len() {
                        cc[k + 1]
                    } else {
                        0
                    } by {
                        if k > 0 {
                            assert(cc[k] == c[k - 1]);
                            assert(c[k - 1] != h);
                        }
                    }
                    assert forall|k: int| 0 <= k < cc.len() implies bucket_of(
                        #[trigger] self.tbs@[cc[k] - 1],
                    ) == bb by {
                        if k > 0 {
                            assert(cc[k] == c[k - 1]);
                            assert(c[k - 1] != h);
                        }
                    }
                    assert(cc.no_duplicates()) by {
                        assert forall|i: int, j: int|
                            0 <= i < cc.len() && 0 <= j < cc.len() && i != j implies cc[i]
                            != cc[j] by {
                            if i > 0 && j > 0 {
                                assert(cc[i] == c[i - 1] && cc[j] == c[j - 1]);
                            } else if i == 0 {
                                assert(cc[j] == c[j - 1]);
                            } else {
                                assert(cc[i] == c[i - 1]);
                            }
                        }
                    }
                } else {
                    assert forall|k: int| 0 <= k < cc.len() implies (#[trigger] self.tbs@[cc[k]
                        - 1]).hash_next == if k + 1 < cc.len() {
                        cc[k + 1]
                    } else {
                        0
                    } by {
                        assert(cc[k] != h);
                    }
                    assert forall|k: int| 0 <= k < cc.len() implies bucket_of(
                        #[trigger] self.tbs@[cc[k] - 1],
                    ) == bb by {
                        assert(cc[k] != h);
                    }
                }
            }
            assert forall|g: int| 0 <= g < self.tbs@.len() implies edges_within(
                #[trigger] self.tbs@[g],
                self.tbs@.len(),
            ) by {
                assert(edges_within(old(self).tbs@[g], old(self).tbs@.len()));
            }
        }
    }

    /// Chains exit `slot` of TB `src` to TB `dst`. Nothing happens when the
    /// slot has no jump instruction or `dst` is invalid; when the slot is
    /// already chained to `dst` only `chain_already` is counted. Otherwise
    /// the edge is recorded on both TBs, `chain_patched` is counted and the
    /// result is the patch to apply to the generated code: the offset of the
    /// jump instruction and the host offset of `dst`.
    pub fn tb_add_jump(&mut self, stats: &mut ExecStats, src: usize, slot: usize, dst: usize) -> (r:
        Option<(usize, usize)>)
        requires
            old(self).wf(),
            old(self).is_handle(src),
            old(self).is_handle(dst),
            slot < 2,
            old(stats).chain_already < u64::MAX,
            old(stats).chain_patched < u64::MAX,
        ensures
            final(self).wf(),
            r == add_jump_result(*old(self), src, slot, dst),
            *final(stats) == add_jump_stats(*old(self), *old(stats), src, slot, dst),
            jump_added(*old(self), *final(self), src, slot, dst),
    {
        let jmp_off = match self.tbs[src - 1].jmp_insn_offset[slot] {
            Some(off) => off as usize,
            None => {
                return None;
            },
        };
        if self.tbs[dst - 1].invalid {
            return None;
        }
        if self.tbs[src - 1].jmp.jmp_dest[slot] == Some(dst) {
            stats.chain_already = stats.chain_already + 1;
            return None;
        }
        let abs_dst = self.tbs[dst - 1].host_offset;
        let ghost pre = *self;
        self.tbs[src - 1].jmp.jmp_dest[slot] = Some(dst);
        let ghost mid = self.tbs@;
        self.tbs[dst - 1].jmp.jmp_list.push((src, slot));
        stats.chain_patched = stats.chain_patched + 1;
        proof {
            assert(self.tbs@[src - 1].jmp.jmp_dest@ =~= pre.tbs@[src - 1].jmp.jmp_dest@.update(
                slot as int,
                Some(dst),
            ));
            let ts = self.tbs@;
            assert forall|g: int| 0 <= g < ts.len() implies (#[trigger] ts[g]).pc == pre.tbs@[g].pc
                && ts[g].flags == pre.tbs@[g].flags && ts[g].hash_next == pre.tbs@[g].hash_next
                && edges_within(ts[g], ts.len()) by {
                assert(edges_within(pre.tbs@[g], ts.len()));
                if g == dst - 1 {
                    let l = ts[g].jmp.jmp_list@;
                    assert forall|i: int| 0 <= i < l.len() implies 1 <= (#[trigger] l[i]).0
                        <= ts.len() && l[i].1 < 2 by {
                        if i < l.len() - 1 {
                            assert(l[i] == mid[g].jmp.jmp_list@[i]);
                        }
                    }
                }
            }
            lemma_keys_kept(pre, ts);
        }
        Some((jmp_off, abs_dst))
    }

    /// First part of invalidating `h`: marks it invalid, takes its incoming
    /// edges and clears the exit of each TB chained into it, collecting the
    /// jump resets that the generated code needs.
    fn cut_incoming(&mut self, h: usize) -> (resets: Vec<(usize, usize)>)
        requires
            old(self).wf(),
            old(self).is_handle(h),
        ensures
            final(self).wf(),
            final(self).chains() == old(self).chains(),
            resets@ == resets_for(old(self).tbs(), old(self).tb(h).jmp.jmp_list@),
            cut(old(self).tbs(), final(self).tbs(), h),
    {
        let ghost pre = *self;
        let ghost t0 = self.tbs@;
        let ghost l = t0[h - 1].jmp.jmp_list@;
        proof {
            assert(edges_within(t0[h - 1], t0.len()));
        }
        self.tbs[h - 1].invalid = true;
        let mut list: Vec<(usize, usize)> = Vec::new();
        std::mem::swap(&mut list, &mut self.tbs[h - 1].jmp.jmp_list);
        let mut resets: Vec<(usize, usize)> = Vec::new();
        let mut i: usize = 0;
        proof {
            assert(list@.take(0) =~= Seq::<(usize, usize)>::empty());
            assert(resets_for(t0, list@.take(0)) =~= Seq::<(usize, usize)>::empty());
        }
        while i < list.len()
            invariant
                list@ == l,
                l == t0[h - 1].jmp.jmp_list@,
                1 <= h <= t0.len(),
                t0.len() < usize::MAX,
                i <= l.len(),
                forall|j: int| 0 <= j < l.len() ==> 1 <= (#[trigger] l[j]).0 <= t0.len() && l[j].1 < 2,
                self.buckets == pre.buckets,
                self.chains == pre.chains,
                self.tbs@.len() == t0.len(),
                forall|g: int|
                    0 <= g < t0.len() ==> {
                        &&& same_but_links(t0[g], #[trigger] self.tbs@[g])
                        &&& self.tbs@[g].hash_next == t0[g].hash_next
                        &&& self.tbs@[g].invalid == (t0[g].invalid || g == h - 1)
                        &&& self.tbs@[g].jmp.jmp_list@ == if g == h - 1 {
                            Seq::empty()
                        } else {
                            t0[g].jmp.jmp_list@
                        }
                        &&& forall|s: int|
                            0 <= s < 2 ==> #[trigger] self.tbs@[g].jmp.jmp_dest@[s] == if l.take(
                                i as int,
                            ).contains(((g + 1) as usize, s as usize)) {
                                None
                            } else {
                                t0[g].jmp.jmp_dest@[s]
                            }
                    },
                resets@ == resets_for(t0, l.take(i as int)),
            decreases l.len() - i,
        {
            let (s, slot) = list[i];
            proof {
                assert(1 <= l[i as int].0 <= t0.len() && l[i as int].1 < 2);
            }
            let tb_s = &self.tbs[s - 1];
            match (tb_s.jmp_insn_offset[slot], tb_s.jmp_reset_offset[slot]) {
                (Some(j), Some(r)) => {
                    resets.push((j as usize, r as usize));
                },
                _ => {},
            }
            let ghost prev = self.tbs@;
            self.tbs[s - 1].jmp.jmp_dest[slot] = None;
            proof {
                broadcast use vstd::seq_lib::group_seq_properties;

                l.lemma_filter_map_take_succ(reset_fn(t0), i as int);
                assert(l.take(i + 1) =~= l.take(i as int).push(l[i as int]));
                assert(self.tbs@[s - 1].jmp.jmp_dest@ =~= prev[s - 1].jmp.jmp_dest@.update(
                    slot as int,
                    None,
                ));
                assert forall|g: int| 0 <= g < t0.len() implies {
                    &&& same_but_links(t0[g], #[trigger] self.tbs@[g])
                    &&& self.tbs@[g].hash_next == t0[g].hash_next
                    &&& self.tbs@[g].invalid == (t0[g].invalid || g == h - 1)
                    &&& self.tbs@[g].jmp.jmp_list@ == if g == h - 1 {
                        Seq::empty()
                    } else {
                        t0[g].jmp.jmp_list@
                    }
                    &&& forall|s2: int|
                        0 <= s2 < 2 ==> #[trigger] self.tbs@[g].jmp.jmp_dest@[s2] == if l.take(
                            i + 1,
                        ).contains(((g + 1) as usize, s2 as usize)) {
                            None
                        } else {
                            t0[g].jmp.jmp_dest@[s2]
                        }
                } by {
                    assert(same_but_links(t0[g], prev[g]));
                    assert forall|s2: int| 0 <= s2 < 2 implies #[trigger] self.tbs@[g].jmp.jmp_dest@[s2]
                        == if l.take(i + 1).contains(((g + 1) as usize, s2 as usize)) {
                        None
                    } else {
                        t0[g].jmp.jmp_dest@[s2]
                    } by {
                        if g != s - 1 {
                            assert(self.tbs@[g] == prev[g]);
                        } else {
                            assert(l[i as int] == (s, slot));
                            assert(self.tbs@[g].jmp.jmp_dest@[s2] == if s2 == slot {
                                None
                            } else {
                                prev[g].jmp.jmp_dest@[s2]
                            });
                        }
                        assert(prev[g].jmp.jmp_dest@[s2] == if l.take(i as int).contains(
                            ((g + 1) as usize, s2 as usize),
                        ) {
                            None
                        } else {
                            t0[g].jmp.jmp_dest@[s2]
                        });
                        assert(l.take(i + 1).contains(((g + 1) as usize, s2 as usize)) == (l.take(
                            i as int,
                        ).contains(((g + 1) as usize, s2 as usize)) || l[i as int] == (
                            (g + 1) as usize,
                            s2 as usize,
                        )));
                    }
                }
            }
            i += 1;
        }
        proof {
            assert(l.take(l.len() as int) =~= l);
            let ts = self.tbs@;
            assert forall|g: int| 0 <= g < ts.len() implies (#[trigger] ts[g]).pc == t0[g].pc
                && ts[g].flags == t0[g].flags && ts[g].hash_next == t0[g].hash_next && edges_within(
                ts[g],
                ts.len(),
            ) by {
                assert(edges_within(t0[g], t0.len()));
                assert forall|s2: int| 0 <= s2 < 2 implies match #[trigger] ts[g].jmp.jmp_dest@[s2] {
                    Some(d) => 1 <= d <= ts.len(),
                    None => true,
                } by {
                    assert(ts[g].jmp.jmp_dest@[s2] == None::<usize> || ts[g].jmp.jmp_dest@[s2]
                        == t0[g].jmp.jmp_dest@[s2]);
                }
            }
            lemma_keys_kept(pre, ts);
        }
        resets
    }

    /// Second part of invalidating `h`: takes both of its outgoing edges and
    /// removes the matching incoming edge from each destination.
    fn cut_outgoing(&mut self, h: usize)
        requires
            old(self).wf(),
            old(self).is_handle(h),
        ensures
            final(self).wf(),
            final(self).chains() == old(self).chains(),
            outgoing_cut(old(self).tbs(), final(self).tbs(), h),
    {
        let ghost pre = *self;
        let ghost t0 = self.tbs@;
        proof {
            assert(edges_within(t0[h - 1], t0.len()));
            assert(t0[h - 1].jmp.jmp_dest@[0] matches Some(d) ==> 1 <= d <= t0.len());
            assert(t0[h - 1].jmp.jmp_dest@[1] matches Some(d) ==> 1 <= d <= t0.len());
        }
        let d0 = self.tbs[h - 1].jmp.jmp_dest[0];
        let d1 = self.tbs[h - 1].jmp.jmp_dest[1];
        self.tbs[h - 1].jmp.jmp_dest[0] = None;
        self.tbs[h - 1].jmp.jmp_dest[1] = None;
        let ghost t1 = self.tbs@;
        if let Some(d) = d0 {
            remove_edge(&mut self.tbs[d - 1].jmp.jmp_list, h, 0);
        }
        let ghost t2 = self.tbs@;
        if let Some(d) = d1 {
            remove_edge(&mut self.tbs[d - 1].jmp.jmp_list, h, 1);
        }
        proof {
            let ts = self.tbs@;
            let dd = t0[h - 1].jmp.jmp_dest@;
            assert(t1[h - 1].jmp.jmp_dest@ =~= seq![None::<usize>, None::<usize>]);
            assert forall|g: int| 0 <= g < t0.len() implies {
                &&& same_but_links(t0[g], #[trigger] ts[g])
                &&& ts[g].hash_next == t0[g].hash_next
                &&& ts[g].invalid == t0[g].invalid
                &&& forall|s: int|
                    0 <= s < 2 ==> #[trigger] ts[g].jmp.jmp_dest@[s] == if g == h - 1 {
                        None
                    } else {
                        t0[g].jmp.jmp_dest@[s]
                    }
                &&& ts[g].jmp.jmp_list@ == t0[g].jmp.jmp_list@.filter(not_from(h, dd, g))
            } by {
                let l = t0[g].jmp.jmp_list@;
                let p0 = not_edge(h, 0);
                let p1 = not_edge(h, 1);
                let target = not_from(h, dd, g);
                let hit0 = d0 == Some((g + 1) as usize);
                let hit1 = d1 == Some((g + 1) as usize);
                assert(t1[g].jmp.jmp_list@ == l);
                assert(t2[g].jmp.jmp_list@ == if hit0 {
                    l.filter(p0)
                } else {
                    l
                });
                assert(ts[g].jmp.jmp_list@ == if hit1 {
                    t2[g].jmp.jmp_list@.filter(p1)
                } else {
                    t2[g].jmp.jmp_list@
                });
                if hit0 && hit1 {
                    lemma_filter_twice(l, p0, p1);
                    assert((|e: (usize, usize)| p0(e) && p1(e)) =~= target);
                } else if hit0 {
                    assert(p0 =~= target);
                } else if hit1 {
                    assert(p1 =~= target);
                } else {
                    lemma_filter_keeps_all(l, target);
                }
            }
            assert forall|g: int| 0 <= g < ts.len() implies (#[trigger] ts[g]).pc == t0[g].pc
                && ts[g].flags == t0[g].flags && ts[g].hash_next == t0[g].hash_next && edges_within(
                ts[g],
                ts.len(),
            ) by {
                assert(edges_within(t0[g], t0.len()));
                let l = t0[g].jmp.jmp_list@;
                let target = not_from(h, dd, g);
                assert forall|i: int| 0 <= i < ts[g].jmp.jmp_list@.len() implies 1 <= (
                #[trigger] ts[g].jmp.jmp_list@[i]).0 <= ts.len() && ts[g].jmp.jmp_list@[i].1 < 2 by {
                    let x = ts[g].jmp.jmp_list@[i];
                    assert(l.filter(target)[i] == x);
                    assert(l.filter(target).contains(x));
                    l.lemma_filter_contains_rev(target, x);
                    let j = choose|j: int| 0 <= j < l.len() && l[j] == x;
                    assert(l[j] == x);
                }
                assert forall|s2: int| 0 <= s2 < 2 implies match #[trigger] ts[g].jmp.jmp_dest@[s2] {
                    Some(d) => 1 <= d <= ts.len(),
                    None => true,
                } by {
                    assert(ts[g].jmp.jmp_dest@[s2] == None::<usize> || ts[g].jmp.jmp_dest@[s2]
                        == t0[g].jmp.jmp_dest@[s2]);
                }
            }
            lemma_keys_kept(pre, ts);
        }
    }

    /// Last part of invalidating `h`: unlinks it from the chain of its
    /// bucket, if it is there.
    fn unlink_hash(&mut self, h: usize)
        requires
            old(self).wf(),
            old(self).is_handle(h),
        ensures
            final(self).wf(),
            ({
                let b = bucket_of(old(self).tb(h));
                let c = old(self).chains()[b];
                &&& final(self).chains() == if c.contains(h) {
                    old(self).chains().update(b, c.remove(c.index_of(h)))
                } else {
                    old(self).chains()
                }
                &&& final(self).tbs().len() == old(self).tbs().len()
                &&& forall|g: int|
                    0 <= g < old(self).tbs().len() ==> #[trigger] final(self).tbs()[g]
                        == with_hash_next(old(self).tbs()[g], final(self).tbs()[g].hash_next)
                &&& unlinked(old(self).tbs(), final(self).tbs(), c, h)
            }),
    {
        let ghost pre = *self;
        let ghost t0 = self.tbs@;
        let bucket = TranslationBlock::hash(self.tbs[h - 1].pc, self.tbs[h - 1].flags);
        let ghost b = bucket as int;
        let ghost c = self.chains@[b];
        proof {
            assert(self.chain_ok(b));
        }
        let mut prev: Option<usize> = None;
        let mut cur = match self.buckets[bucket] {
            Some(r) => r,
            None => {
                proof {
                    assert(self.tbs@ =~= t0);
                    assert forall|g: int| 0 <= g < t0.len() implies #[trigger] self.tbs@[g]
                        == with_hash_next(t0[g], self.tbs@[g].hash_next) by {}
                }
                return;
            },
        };
        let ghost mut k: int = 0;
        loop
            invariant
                pre == *old(self),
                pre.wf(),
                self.tbs == pre.tbs,
                self.buckets == pre.buckets,
                self.chains == pre.chains,
                t0 == pre.tbs@,
                1 <= h <= t0.len(),
                bucket < TB_HASH_SIZE,
                b == bucket as int,
                b == bucket_of(t0[h - 1]),
                c == pre.chains@[b],
                pre.chain_ok(b),
                0 <= k < c.len(),
                cur == c[k],
                prev == if k == 0 {
                    None
                } else {
                    Some(c[k - 1])
                },
                forall|j: int| 0 <= j < k ==> c[j] != h,
            decreases c.len() - k,
        {
            proof {
                assert(1 <= c[k] <= t0.len());
            }
            if cur == h {
                let next = self.tbs[cur - 1].hash_next;
                match prev {
                    Some(p) => {
                        proof {
                            assert(1 <= c[k - 1] <= t0.len());
                        }
                        self.tbs[p - 1].hash_next = next;
                    },
                    None => {
                        self.buckets.set(
                            bucket,
                            if next == 0 {
                                None
                            } else {
                                Some(next)
                            },
                        );
                    },
                }
                self.tbs[cur - 1].hash_next = 0;
                proof {
                    self.chains@ = self.chains@.update(b, c.remove(k));
                    lemma_unlink_keeps_wf(pre, *self, h, k);
                }
                return;
            }
            let next_raw = self.tbs[cur - 1].hash_next;
            if next_raw == 0 {
                proof {
                    if k + 1 < c.len() {
                        assert(1 <= c[k + 1]);
                    }
                    assert(!c.contains(h));
                    assert forall|g: int| 0 <= g < t0.len() implies #[trigger] self.tbs@[g]
                        == with_hash_next(t0[g], self.tbs@[g].hash_next) by {}
                }
                return;
            }
            prev = Some(cur);
            cur = next_raw;
            proof {
                k = k + 1;
            }
        }
    }

    /// Invalidates TB `h`: marks it invalid, cuts every chained jump into
    /// and out of it, and unlinks it from the hash table. The result lists,
    /// in the order of `h`'s incoming edges, the jumps that the generated
    /// code must point back to their reset targets: `(jump offset, reset
    /// offset)`.
    pub fn invalidate(&mut self, h: usize) -> (resets: Vec<(usize, usize)>)
        requires
            old(self).wf(),
            old(self).is_handle(h),
        ensures
            final(self).wf(),
            resets@ == resets_for(old(self).tbs(), old(self).tb(h).jmp.jmp_list@),
            invalidated(old(self).tbs(), final(self).tbs(), h),
            ({
                let b = bucket_of(old(self).tb(h));
                let c = old(self).chains()[b];
                &&& final(self).chains() == if c.contains(h) {
                    old(self).chains().update(b, c.remove(c.index_of(h)))
                } else {
                    old(self).chains()
                }
                &&& unlinked(old(self).tbs(), final(self).tbs(), c, h)
            }),
    {
        let ghost t0 = self.tbs@;
        let resets = self.cut_incoming(h);
        let ghost t1 = self.tbs@;
        self.cut_outgoing(h);
        let ghost t2 = self.tbs@;
        self.unlink_hash(h);
        proof {
            let t3 = self.tbs@;
            let dd = dests_after_cut(t0, h);
            assert(t1[h - 1].jmp.jmp_dest@ =~= dd);
            assert(bucket_of(t2[h - 1]) == bucket_of(t0[h - 1]));
            assert forall|g: int| 0 <= g < t0.len() implies {
                &&& same_but_links(t0[g], #[trigger] t3[g])
                &&& t3[g].invalid == (t0[g].invalid || g == h - 1)
                &&& forall|s: int|
                    0 <= s < 2 ==> #[trigger] t3[g].jmp.jmp_dest@[s] == if g == h - 1
                        || t0[h - 1].jmp.jmp_list@.contains(((g + 1) as usize, s as usize)) {
                        None
                    } else {
                        t0[g].jmp.jmp_dest@[s]
                    }
                &&& t3[g].jmp.jmp_list@ == if g == h - 1 {
                    Seq::empty()
                } else {
                    t0[g].jmp.jmp_list@.filter(not_from(h, dd, g))
                }
            } by {
                assert(t3[g] == with_hash_next(t2[g], t3[g].hash_next));
                assert(same_but_links(t1[g], t2[g]));
                assert(same_but_links(t0[g], t1[g]));
                assert forall|s: int| 0 <= s < 2 implies #[trigger] t3[g].jmp.jmp_dest@[s] == if g
                    == h - 1 || t0[h - 1].jmp.jmp_list@.contains(((g + 1) as usize, s as usize)) {
                    None
                } else {
                    t0[g].jmp.jmp_dest@[s]
                } by {
                    assert(t2[g].jmp.jmp_dest@[s] == if g == h - 1 {
                        None
                    } else {
                        t1[g].jmp.jmp_dest@[s]
                    });
                    assert(t1[g].jmp.jmp_dest@[s] == if t0[h - 1].jmp.jmp_list@.contains(
                        ((g + 1) as usize, s as usize),
                    ) {
                        None
                    } else {
                        t0[g].jmp.jmp_dest@[s]
                    });
                }
                if g == h - 1 {
                    lemma_filter_empty(not_from(h, t1[h - 1].jmp.jmp_dest@, g));
                }
            }
        }
        resets
    }

    /// Handles of all TBs, in allocation order (valid or not).
    pub fn iter_all(&self) -> (r: Vec<usize>)
        ensures
            r@ == Seq::new(self.tbs().len(), |i: int| (i + 1) as usize),
    {
        let n = self.tbs.len();
        let mut r: Vec<usize> = Vec::new();
        let mut i: usize = 0;
        while i < n
            invariant
                n == self.tbs@.len(),
                i <= n,
                r@ == Seq::new(i as nat, |j: int| (j + 1) as usize),
            decreases n - i,
        {
            r.push(i + 1);
            i += 1;
            assert(r@ =~= Seq::new(i as nat, |j: int| (j + 1) as usize));
        }
        r
    }

    /// Drops every TB and empties the hash table.
    pub fn flush(&mut self)
        requires
            old(self).wf(),
        ensures
            final(self).wf(),
            final(self).tbs().len() == 0,
            forall|b: int| 0 <= b < TB_HASH_SIZE ==> (#[trigger] final(self).chains()[b]).len() == 0,
    {
        self.tbs = Vec::new();
        let mut i: usize = 0;
        while i < TB_HASH_SIZE
            invariant
                self.buckets@.len() == TB_HASH_SIZE,
                self.tbs@.len() == 0,
                i <= TB_HASH_SIZE,
                forall|j: int| 0 <= j < i ==> self.buckets@[j] == None::<usize>,
            decreases TB_HASH_SIZE - i,
        {
            self.buckets.set(i, None);
            i += 1;
        }
        proof {
            self.chains@ = Seq::new(TB_HASH_SIZE as nat, |b: int| Seq::<usize>::empty());
            assert forall|b: int| 0 <= b < TB_HASH_SIZE implies #[trigger] self.chain_ok(b) by {
                assert(self.chains@[b].len() == 0);
            }
        }
    }
}

/// A change of a TB that keeps its chaining state (its edges and cached
/// indirect target) and, when `linked`, its key and chain link.
pub open spec fn keeps_links(before: TranslationBlock, after: TranslationBlock, linked: bool) -> bool {
    &&& after.jmp == before.jmp
    &&& after.exit_target == before.exit_target
    &&& linked ==> after.pc == before.pc && after.flags == before.flags && after.hash_next
        == before.hash_next
}

/// Replacing one TB by a version that keeps its links keeps the store well
/// formed.
proof fn lemma_update_keeping_links(s: TbStore, h: usize)
    requires
        s.wf(),
        s.is_handle(h),
    ensures
        forall|s2: TbStore|
            s2.buckets == s.buckets && s2.chains == s.chains && s2.tbs@.len() == s.tbs@.len()
                && s2.tbs@ == s.tbs@.update(h - 1, s2.tbs@[h - 1]) && keeps_links(
                s.tb(h),
                s2.tbs@[h - 1],
                s.in_table(h),
            ) ==> #[trigger] s2.wf(),
{
    assert forall|s2: TbStore|
        s2.buckets == s.buckets && s2.chains == s.chains && s2.tbs@.len() == s.tbs@.len()
            && s2.tbs@ == s.tbs@.update(h - 1, s2.tbs@[h - 1]) && keeps_links(
            s.tb(h),
            s2.tbs@[h - 1],
            s.in_table(h),
        ) implies #[trigger] s2.wf() by {
        let ts = s2.tbs@;
        if !s.in_table(h) {
            lemma_not_in_other_chains(s, h);
        }
        assert forall|b: int| 0 <= b < TB_HASH_SIZE implies #[trigger] s2.chain_ok_with(b, ts) by {
            assert(s.chain_ok(b));
            let c = s.chains@[b];
            assert forall|k: int| 0 <= k < c.len() implies (#[trigger] ts[c[k] - 1]).hash_next
                == if k + 1 < c.len() {
                c[k + 1]
            } else {
                0
            } by {
                if c[k] == h {
                    assert(bucket_of(s.tbs@[h - 1]) == b);
                    assert(s.chains@[b].contains(h));
                }
            }
            assert forall|k: int| 0 <= k < c.len() implies bucket_of(#[trigger] ts[c[k] - 1])
                == b by {
                if c[k] == h {
                    assert(bucket_of(s.tbs@[h - 1]) == b);
                    assert(s.chains@[b].contains(h));
                }
            }
        }
        assert forall|g: int| 0 <= g < ts.len() implies edges_within(#[trigger] ts[g], ts.len())
            by {
            assert(edges_within(s.tbs@[g], s.tbs@.len()));
        }
    }
}

/// `after` is `before` with only its chaining state replaced, and that
/// state reads `dest` and `list`.
pub open spec fn jmp_now(
    before: TranslationBlock,
    after: TranslationBlock,
    dest: Seq<Option<usize>>,
    list: Seq<(usize, usize)>,
) -> bool {
    &&& after == TranslationBlock { jmp: after.jmp, ..before }
    &&& after.jmp.jmp_dest@ == dest
    &&& after.jmp.jmp_list@ == list
}

/// `after` is `before` with exit `slot` of `src` chained to `dst`: the
/// destination recorded on `src` and the incoming edge appended to `dst`'s
/// list; every other TB is unchanged.
pub open spec fn chained(
    before: Seq<TranslationBlock>,
    after: Seq<TranslationBlock>,
    src: usize,
    slot: usize,
    dst: usize,
) -> bool {
    let s = before[src - 1];
    let d = before[dst - 1];
    &&& after.len() == before.len()
    &&& forall|g: int|
        0 <= g < before.len() && g != src - 1 && g != dst - 1 ==> #[trigger] after[g]
            == before[g]
    &&& jmp_now(
        s,
        after[src - 1],
        s.jmp.jmp_dest@.update(slot as int, Some(dst)),
        if src == dst {
            s.jmp.jmp_list@.push((src, slot))
        } else {
            s.jmp.jmp_list@
        },
    )
    &&& src != dst ==> jmp_now(
        d,
        after[dst - 1],
        d.jmp.jmp_dest@,
        d.jmp.jmp_list@.push((src, slot)),
    )
}

/// The jump reset that unlinking exit `slot` of `tb` calls for: the offset
/// of its jump instruction and the offset to point it back to, when both
/// are recorded.
pub open spec fn reset_of(tb: TranslationBlock, slot: usize) -> Option<(usize, usize)> {
    match (tb.jmp_insn_offset@[slot as int], tb.jmp_reset_offset@[slot as int]) {
        (Some(j), Some(r)) => Some((j as usize, r as usize)),
        _ => None,
    }
}

/// The reset of each incoming edge, read from the TBs `tbs`.
pub open spec fn reset_fn(tbs: Seq<TranslationBlock>) -> spec_fn((usize, usize)) -> Option<
    (usize, usize),
> {
    |e: (usize, usize)| reset_of(tbs[e.0 - 1], e.1)
}

/// The resets for the incoming edges `list`, in order.
pub open spec fn resets_for(tbs: Seq<TranslationBlock>, list: Seq<(usize, usize)>) -> Seq<
    (usize, usize),
> {
    list.filter_map(reset_fn(tbs))
}

/// The state after the first part of invalidating `h`: `h` is invalid with
/// no incoming edges, and every exit that was chained into `h` is cleared.
pub open spec fn cut(before: Seq<TranslationBlock>, after: Seq<TranslationBlock>, h: usize) -> bool {
    let l = before[h - 1].jmp.jmp_list@;
    &&& after.len() == before.len()
    &&& forall|g: int|
        0 <= g < before.len() ==> {
            &&& same_but_links(before[g], #[trigger] after[g])
            &&& after[g].hash_next == before[g].hash_next
            &&& after[g].invalid == (before[g].invalid || g == h - 1)
            &&& after[g].jmp.jmp_list@ == if g == h - 1 {
                Seq::empty()
            } else {
                before[g].jmp.jmp_list@
            }
            &&& forall|s: int|
                0 <= s < 2 ==> #[trigger] after[g].jmp.jmp_dest@[s] == if l.contains(
                    ((g + 1) as usize, s as usize),
                ) {
                    None
                } else {
                    before[g].jmp.jmp_dest@[s]
                }
        }
}

/// `after` differs from `before` at most in the chaining state, the
/// validity flag and the chain link.
pub open spec fn same_but_links(before: TranslationBlock, after: TranslationBlock) -> bool {
    after == TranslationBlock {
        jmp: after.jmp,
        invalid: after.invalid,
        hash_next: after.hash_next,
        ..before
    }
}

/// Exit `slot` of the TB being invalidated still points to a TB once its
/// incoming edges are cut: the destination recorded before, unless the TB
/// was chained to itself through that slot.
pub open spec fn outgoing_after_cut(tbs: Seq<TranslationBlock>, h: usize, slot: int) -> Option<
    usize,
> {
    let t = tbs[h - 1];
    if t.jmp.jmp_list@.contains((h, slot as usize)) {
        None
    } else {
        t.jmp.jmp_dest@[slot]
    }
}

/// The exits of the TB being invalidated once its incoming edges are cut.
pub open spec fn dests_after_cut(tbs: Seq<TranslationBlock>, h: usize) -> Seq<Option<usize>> {
    Seq::new(2, |s: int| outgoing_after_cut(tbs, h, s))
}

/// The chaining state and validity of every TB after invalidating `h`: `h`
/// is invalid and has no edges left; each TB that was chained into `h`
/// has that exit cleared; each TB that `h` was chained into has lost the
/// edge from `h`; nothing else changed (apart from chain links).
pub open spec fn invalidated(before: Seq<TranslationBlock>, after: Seq<TranslationBlock>, h: usize) -> bool {
    let l = before[h - 1].jmp.jmp_list@;
    &&& after.len() == before.len()
    &&& forall|g: int|
        0 <= g < before.len() ==> {
            &&& same_but_links(before[g], #[trigger] after[g])
            &&& after[g].invalid == (before[g].invalid || g == h - 1)
            &&& forall|s: int|
                0 <= s < 2 ==> #[trigger] after[g].jmp.jmp_dest@[s] == if g == h - 1
                    || l.contains(((g + 1) as usize, s as usize)) {
                    None
                } else {
                    before[g].jmp.jmp_dest@[s]
                }
            &&& after[g].jmp.jmp_list@ == if g == h - 1 {
                Seq::empty()
            } else {
                before[g].jmp.jmp_list@.filter(not_from(h, dests_after_cut(before, h), g))
            }
        }
}

/// The chain links after unlinking `h` from the chain `c` of its bucket:
/// its predecessor takes over its link and its own link is cleared. A TB
/// outside the chain leaves every link as it was.
pub open spec fn unlinked(
    before: Seq<TranslationBlock>,
    after: Seq<TranslationBlock>,
    c: Seq<usize>,
    h: usize,
) -> bool {
    let k = c.index_of(h);
    forall|g: int|
        0 <= g < before.len() ==> (#[trigger] after[g]).hash_next == if !c.contains(h) {
            before[g].hash_next
        } else if g == h - 1 {
            0
        } else if k > 0 && g == c[k - 1] - 1 {
            before[h - 1].hash_next
        } else {
            before[g].hash_next
        }
}

/// The state after the second part of invalidating `h`: its exits are
/// cleared and each TB that one of them pointed to has lost the edge from
/// `h` through that exit.
pub open spec fn outgoing_cut(before: Seq<TranslationBlock>, after: Seq<TranslationBlock>, h: usize) -> bool {
    let dd = before[h - 1].jmp.jmp_dest@;
    &&& after.len() == before.len()
    &&& forall|g: int|
        0 <= g < before.len() ==> {
            &&& same_but_links(before[g], #[trigger] after[g])
            &&& after[g].hash_next == before[g].hash_next
            &&& after[g].invalid == before[g].invalid
            &&& forall|s: int|
                0 <= s < 2 ==> #[trigger] after[g].jmp.jmp_dest@[s] == if g == h - 1 {
                    None
                } else {
                    before[g].jmp.jmp_dest@[s]
                }
            &&& after[g].jmp.jmp_list@ == before[g].jmp.jmp_list@.filter(not_from(h, dd, g))
        }
}

/// Keeps the edges other than `(src, slot)`.
pub open spec fn not_edge(src: usize, slot: usize) -> spec_fn((usize, usize)) -> bool {
    |e: (usize, usize)| !(e.0 == src && e.1 == slot)
}

/// Keeps the edges into TB `g + 1` other than those from `h` through an
/// exit whose destination in `dd` is that TB.
pub open spec fn not_from(h: usize, dd: Seq<Option<usize>>, g: int) -> spec_fn((usize, usize)) -> bool {
    |e: (usize, usize)| !(e.0 == h && e.1 < 2 && dd[e.1 as int] == Some((g + 1) as usize))
}

/// Removes every edge `(src, slot)` from an incoming-edge list, keeping the
/// others in order.
fn remove_edge(list: &mut Vec<(usize, usize)>, src: usize, slot: usize)
    ensures
        final(list)@ == old(list)@.filter(not_edge(src, slot)),
{
    let ghost p = not_edge(src, slot);
    let mut kept: Vec<(usize, usize)> = Vec::new();
    let mut i: usize = 0;
    proof {
        reveal(Seq::filter);
        assert(list@.take(0) =~= Seq::<(usize, usize)>::empty());
    }
    while i < list.len()
        invariant
            p == not_edge(src, slot),
            i <= list@.len(),
            kept@ == list@.take(i as int).filter(p),
        decreases list@.len() - i,
    {
        let e = list[i];
        proof {
            assert(list@.take(i + 1) =~= list@.take(i as int).push(e));
            list@.take(i as int).lemma_filter_push(e, p);
            assert(p(e) == !(e.0 == src && e.1 == slot));
        }
        if !(e.0 == src && e.1 == slot) {
            kept.push(e);
        }
        i += 1;
    }
    proof {
        assert(list@.take(list@.len() as int) =~= list@);
    }
    *list = kept;
}

/// Filtering twice keeps what both predicates keep.
proof fn lemma_filter_twice<A>(s: Seq<A>, p: spec_fn(A) -> bool, q: spec_fn(A) -> bool)
    ensures
        s.filter(p).filter(q) == s.filter(|x: A| p(x) && q(x)),
    decreases s.len(),
{
    reveal(Seq::filter);
    if s.len() > 0 {
        lemma_filter_twice(s.drop_last(), p, q);
        let r = s.drop_last().filter(p);
        if p(s.last()) {
            r.lemma_filter_push(s.last(), q);
        }
    }
}

/// Filtering the empty sequence gives the empty sequence.
proof fn lemma_filter_empty<A>(p: spec_fn(A) -> bool)
    ensures
        Seq::<A>::empty().filter(p) == Seq::<A>::empty(),
{
    reveal(Seq::filter);
}

/// A filter that keeps every element gives the sequence back.
proof fn lemma_filter_keeps_all<A>(s: Seq<A>, p: spec_fn(A) -> bool)
    requires
        forall|i: int| 0 <= i < s.len() ==> p(#[trigger] s[i]),
    ensures
        s.filter(p) == s,
    decreases s.len(),
{
    reveal(Seq::filter);
    if s.len() > 0 {
        lemma_filter_keeps_all(s.drop_last(), p);
        assert(s.drop_last().push(s.last()) =~= s);
    }
}

/// Changing TBs without touching their keys and chain links, and keeping
/// every chaining edge inside the store, keeps the store well formed.
proof fn lemma_keys_kept(s: TbStore, ts: Seq<TranslationBlock>)
    requires
        s.wf(),
        ts.len() == s.tbs@.len(),
        forall|g: int|
            0 <= g < ts.len() ==> (#[trigger] ts[g]).pc == s.tbs@[g].pc && ts[g].flags
                == s.tbs@[g].flags && ts[g].hash_next == s.tbs@[g].hash_next && edges_within(
                ts[g],
                ts.len(),
            ),
    ensures
        forall|s2: TbStore|
            s2.buckets == s.buckets && s2.chains == s.chains && s2.tbs@ == ts ==> #[trigger] s2.wf(),
{
    assert forall|s2: TbStore|
        s2.buckets == s.buckets && s2.chains == s.chains && s2.tbs@ == ts implies #[trigger] s2.wf() by {
        assert forall|b: int| 0 <= b < TB_HASH_SIZE implies #[trigger] s2.chain_ok_with(b, ts) by {
            assert(s.chain_ok(b));
            let c = s.chains@[b];
            assert forall|k: int| 0 <= k < c.len() implies (#[trigger] ts[c[k] - 1]).hash_next
                == if k + 1 < c.len() {
                c[k + 1]
            } else {
                0
            } by {
                assert(1 <= c[k] <= ts.len());
                assert(ts[c[k] - 1].hash_next == s.tbs@[c[k] - 1].hash_next);
            }
            assert forall|k: int| 0 <= k < c.len() implies bucket_of(#[trigger] ts[c[k] - 1])
                == b by {
                assert(1 <= c[k] <= ts.len());
                assert(ts[c[k] - 1].pc == s.tbs@[c[k] - 1].pc);
            }
        }
    }
}

/// The TBs after unlinking the `k`-th element `h` of chain `c`: its
/// predecessor (if any) takes over its link and its own link is cleared.
pub open spec fn tbs_after_unlink(
    tbs: Seq<TranslationBlock>,
    c: Seq<usize>,
    h: usize,
    k: int,
) -> Seq<TranslationBlock> {
    let with_prev = if k > 0 {
        tbs.update(c[k - 1] - 1, with_hash_next(tbs[c[k - 1] - 1], tbs[h - 1].hash_next))
    } else {
        tbs
    };
    with_prev.update(h - 1, with_hash_next(tbs[h - 1], 0))
}

/// Unlinking the `k`-th element of a chain keeps the store well formed and
/// has the effect that `unlink_hash` states.
proof fn lemma_unlink_keeps_wf(pre: TbStore, post: TbStore, h: usize, k: int)
    requires
        pre.wf(),
        pre.is_handle(h),
        0 <= k < pre.chains@[bucket_of(pre.tb(h))].len(),
        pre.chains@[bucket_of(pre.tb(h))][k] == h,
        post.tbs@ == tbs_after_unlink(pre.tbs@, pre.chains@[bucket_of(pre.tb(h))], h, k),
        post.chains@ == pre.chains@.update(
            bucket_of(pre.tb(h)),
            pre.chains@[bucket_of(pre.tb(h))].remove(k),
        ),
        post.buckets@ == if k == 0 {
            pre.buckets@.update(
                bucket_of(pre.tb(h)),
                if pre.tb(h).hash_next == 0 {
                    None
                } else {
                    Some(pre.tb(h).hash_next)
                },
            )
        } else {
            pre.buckets@
        },
    ensures
        post.wf(),
        ({
            let b = bucket_of(pre.tb(h));
            let c = pre.chains()[b];
            &&& c.contains(h)
            &&& c.index_of(h) == k
            &&& post.chains() == pre.chains().update(b, c.remove(c.index_of(h)))
            &&& post.tbs().len() == pre.tbs().len()
            &&& forall|g: int|
                0 <= g < pre.tbs().len() ==> #[trigger] post.tbs()[g] == with_hash_next(
                    pre.tbs()[g],
                    post.tbs()[g].hash_next,
                )
            &&& unlinked(pre.tbs(), post.tbs(), c, h)
        }),
{
    let b = bucket_of(pre.tb(h));
    let c = pre.chains@[b];
    let t0 = pre.tbs@;
    let ts = post.tbs@;
    let cc = c.remove(k);
    assert(pre.chain_ok(b));
    assert(c.contains(h));
    let i = c.index_of(h);
    assert(c[i] == h);
    assert(i == k);
    let p = if k > 0 {
        c[k - 1]
    } else {
        0
    };
    if k > 0 {
        assert(1 <= c[k - 1] <= t0.len());
        assert(c[k - 1] != h);
    }
    assert forall|g: int| 0 <= g < t0.len() implies #[trigger] ts[g] == with_hash_next(
        t0[g],
        ts[g].hash_next,
    ) by {}
    assert forall|g: int| 0 <= g < t0.len() implies (#[trigger] ts[g]).hash_next == if g == h - 1 {
        0
    } else if k > 0 && g == c[k - 1] - 1 {
        t0[h - 1].hash_next
    } else {
        t0[g].hash_next
    } by {}
    assert(t0[h - 1].hash_next == if k + 1 < c.len() {
        c[k + 1]
    } else {
        0
    });
    assert forall|bb: int| 0 <= bb < TB_HASH_SIZE implies #[trigger] post.chain_ok_with(bb, ts) by {
        assert(pre.chain_ok(bb));
        let cb = post.chains@[bb];
        if bb == b {
            assert(cb == cc);
            assert(cc.len() == c.len() - 1);
            assert forall|j: int| 0 <= j < cc.len() implies #[trigger] cc[j] == if j < k {
                c[j]
            } else {
                c[j + 1]
            } by {}
            if k + 1 < c.len() {
                assert(1 <= c[k + 1]);
            }
            assert forall|j: int| 0 <= j < cc.len() implies 1 <= #[trigger] cc[j] <= ts.len() by {
                if j < k {
                    assert(1 <= c[j] <= t0.len());
                } else {
                    assert(1 <= c[j + 1] <= t0.len());
                }
            }
            assert forall|j: int| 0 <= j < cc.len() implies (#[trigger] ts[cc[j] - 1]).hash_next
                == if j + 1 < cc.len() {
                cc[j + 1]
            } else {
                0
            } by {
                if j < k {
                    assert(1 <= c[j] <= t0.len());
                    assert(c[j] != h);
                    if j == k - 1 {
                        assert(cc[j] == c[k - 1]);
                    } else {
                        assert(c[j] != c[k - 1]);
                        assert(ts[c[j] - 1].hash_next == t0[c[j] - 1].hash_next);
                        assert(t0[c[j] - 1].hash_next == c[j + 1]);
                    }
                } else {
                    assert(1 <= c[j + 1] <= t0.len());
                    assert(c[j + 1] != h);
                    if k > 0 {
                        assert(c[j + 1] != c[k - 1]);
                    }
                    assert(ts[c[j + 1] - 1].hash_next == t0[c[j + 1] - 1].hash_next);
                    assert(t0[c[j + 1] - 1].hash_next == if j + 2 < c.len() {
                        c[j + 2]
                    } else {
                        0
                    });
                }
            }
            assert forall|j: int| 0 <= j < cc.len() implies bucket_of(#[trigger] ts[cc[j] - 1])
                == bb by {
                if j < k {
                    assert(1 <= c[j] <= t0.len());
                    assert(bucket_of(t0[c[j] - 1]) == b);
                } else {
                    assert(1 <= c[j + 1] <= t0.len());
                    assert(bucket_of(t0[c[j + 1] - 1]) == b);
                }
            }
            assert(cc.no_duplicates()) by {
                assert forall|x: int, y: int|
                    0 <= x < cc.len() && 0 <= y < cc.len() && x != y implies cc[x] != cc[y] by {
                    let xx = if x < k {
                        x
                    } else {
                        x + 1
                    };
                    let yy = if y < k {
                        y
                    } else {
                        y + 1
                    };
                    assert(cc[x] == c[xx] && cc[y] == c[yy]);
                }
            }
            if k == 0 {
                if cc.len() > 0 {
                    assert(cc[0] == c[1]);
                }
            } else {
                assert(c[0] == cc[0]);
            }
        } else {
            assert(cb == pre.chains@[bb]);
            assert forall|j: int| 0 <= j < cb.len() implies #[trigger] ts[cb[j] - 1] == t0[cb[j]
                - 1] by {
                assert(1 <= cb[j] <= t0.len());
                assert(bucket_of(t0[cb[j] - 1]) == bb);
                assert(cb[j] != h);
                if k > 0 {
                    assert(bucket_of(t0[c[k - 1] - 1]) == b);
                    assert(cb[j] != c[k - 1]);
                }
            }
            assert forall|j: int| 0 <= j < cb.len() implies (#[trigger] ts[cb[j] - 1]).hash_next
                == if j + 1 < cb.len() {
                cb[j + 1]
            } else {
                0
            } by {
                assert(ts[cb[j] - 1] == t0[cb[j] - 1]);
            }
            assert forall|j: int| 0 <= j < cb.len() implies bucket_of(#[trigger] ts[cb[j] - 1])
                == bb by {
                assert(ts[cb[j] - 1] == t0[cb[j] - 1]);
            }
        }
    }
    assert forall|g: int| 0 <= g < ts.len() implies edges_within(#[trigger] ts[g], ts.len()) by {
        assert(edges_within(t0[g], t0.len()));
        assert(ts[g].jmp == t0[g].jmp);
    }
}

/// The indirect-exit target cached on a TB is 0 or a TB of the store.
pub proof fn lemma_exit_target_within(s: TbStore, h: usize)
    requires
        s.wf(),
        s.is_handle(h),
    ensures
        s.tb(h).exit_target == 0 || s.is_handle(s.tb(h).exit_target),
{
    assert(edges_within(s.tbs@[h - 1], s.tbs@.len()));
}

/// A handle that is not in the chain of its own bucket is in no chain.
proof fn lemma_not_in_other_chains(s: TbStore, h: usize)
    requires
        s.wf(),
        s.is_handle(h),
        !s.in_table(h),
    ensures
        forall|b: int, k: int|
            0 <= b < TB_HASH_SIZE && 0 <= k < s.chains@[b].len() ==> #[trigger] s.chains@[b][k]
                != h,
{
    assert forall|b: int, k: int|
        0 <= b < TB_HASH_SIZE && 0 <= k < s.chains@[b].len() implies #[trigger] s.chains@[b][k]
        != h by {
        assert(s.chain_ok(b));
        if s.chains@[b][k] == h {
            assert(bucket_of(s.tbs@[h - 1]) == b);
            assert(s.chains@[b].contains(h));
        }
    }
}

impl Default for TbStore {
    fn default() -> (s: Self)
        ensures
            s.wf(),
            s.tbs().len() == 0,
            forall|b: int| 0 <= b < TB_HASH_SIZE ==> (#[trigger] s.chains()[b]).len() == 0,
    {
        Self::new()
    }
}

/// Every entry of the jump cache `c` is empty or names a TB of `s`.
pub open spec fn jc_within(c: Seq<usize>, s: TbStore) -> bool {
    forall|i: int| 0 <= i < c.len() ==> #[trigger] c[i] == 0 || s.is_handle(c[i])
}

/// The jump cache's entry for `pc` when it names a TB that matches.
pub open spec fn cache_hit(store: TbStore, c: Seq<usize>, pc: u64, flags: u32) -> Option<usize> {
    let cached = JumpCache::lookup_spec(c, pc);
    if cached matches Some(h) && tb_matches(store.tb(h), pc, flags) {
        cached
    } else {
        None
    }
}

/// What `tb_find` returns on the jump cache `c`: a matching cached TB,
/// else the hash table's answer.
pub open spec fn find_result(store: TbStore, c: Seq<usize>, pc: u64, flags: u32) -> Option<usize> {
    if cache_hit(store, c, pc, flags) is Some {
        cache_hit(store, c, pc, flags)
    } else {
        store.lookup_spec(pc, flags)
    }
}

/// The jump cache after `tb_find`: a hash-table hit is cached.
pub open spec fn find_cache(store: TbStore, c: Seq<usize>, pc: u64, flags: u32) -> Seq<usize> {
    if cache_hit(store, c, pc, flags) is None && store.lookup_spec(pc, flags) is Some {
        c.update(jc_index(pc), store.lookup_spec(pc, flags)->0)
    } else {
        c
    }
}

/// The statistics after `tb_find`: a jump-cache hit, a hash-table hit or
/// a translation is counted.
pub open spec fn find_stats(store: TbStore, c: Seq<usize>, s: ExecStats, pc: u64, flags: u32) -> ExecStats {
    if cache_hit(store, c, pc, flags) is Some {
        ExecStats { jc_hit: (s.jc_hit + 1) as u64, ..s }
    } else if store.lookup_spec(pc, flags) is Some {
        ExecStats { ht_hit: (s.ht_hit + 1) as u64, ..s }
    } else {
        ExecStats { translate: (s.translate + 1) as u64, ..s }
    }
}

/// Finds the TB to run for `(pc, flags)`: the jump cache's entry when it
/// matches, else the hash table's answer (which is then cached). `None`
/// means that the block has to be translated; each outcome is counted.
pub fn tb_find(store: &TbStore, jc: &mut JumpCache, stats: &mut ExecStats, pc: u64, flags: u32) -> (r:
    Option<usize>)
    requires
        store.wf(),
        old(jc)@.len() == TB_JMP_CACHE_SIZE,
        jc_within(old(jc)@, *store),
        old(stats).jc_hit < u64::MAX,
        old(stats).ht_hit < u64::MAX,
        old(stats).translate < u64::MAX,
    ensures
        final(jc)@.len() == TB_JMP_CACHE_SIZE,
        jc_within(final(jc)@, *store),
        r matches Some(h) ==> store.is_handle(h) && tb_matches(store.tb(h), pc, flags),
        r == find_result(*store, old(jc)@, pc, flags),
        final(jc)@ == find_cache(*store, old(jc)@, pc, flags),
        *final(stats) == find_stats(*store, old(jc)@, *old(stats), pc, flags),
{
    proof {
        law_lookup_exact(*store, pc, flags);
        assert(0 <= jc_index(pc) < TB_JMP_CACHE_SIZE);
    }
    if let Some(h) = jc.lookup(pc) {
        proof {
            assert(jc@[jc_index(pc)] == h);
        }
        let tb = store.get(h);
        if !tb.invalid && tb.pc == pc && tb.flags == flags && tb.host_size > 0 {
            stats.jc_hit = stats.jc_hit + 1;
            return Some(h);
        }
    }
    if let Some(h) = store.lookup(pc, flags) {
        jc.insert(pc, h);
        stats.ht_hit = stats.ht_hit + 1;
        return Some(h);
    }
    stats.translate = stats.translate + 1;
    None
}

/// Records the translation of TB `h` (fresh from `allocate`): its guest
/// size, where its host code is, and, unless the code came from an
/// ahead-of-time table, the jump and reset offsets of each `goto_tb` exit
/// `(slot, jump offset, reset offset)` with a slot below 2 (offsets are
/// kept to 32 bits). Then links it into the hash table and the jump cache.
pub fn install_translation(
    store: &mut TbStore,
    jc: &mut JumpCache,
    h: usize,
    guest_size: u32,
    host_offset: usize,
    host_size: usize,
    goto_offsets: &Vec<(usize, usize, usize)>,
    from_aot: bool,
)
    requires
        old(store).wf(),
        old(store).is_handle(h),
        !old(store).in_table(h),
        old(store).tb(h).jmp.jmp_dest@ == seq![None::<usize>, None::<usize>],
        old(store).tb(h).jmp.jmp_list@.len() == 0,
        old(jc)@.len() == TB_JMP_CACHE_SIZE,
        jc_within(old(jc)@, *old(store)),
    ensures
        final(store).wf(),
        final(store).tbs().len() == old(store).tbs().len(),
        final(store).in_table(h),
        forall|g: int|
            0 <= g < old(store).tbs().len() && g != h - 1 ==> #[trigger] final(store).tbs()[g]
                == old(store).tbs()[g],
        ({
            let t0 = old(store).tb(h);
            let t = final(store).tb(h);
            &&& t.pc == t0.pc && t.flags == t0.flags && t.cflags == t0.cflags
            &&& t.invalid == t0.invalid
            &&& t.size == guest_size
            &&& t.host_offset == host_offset
            &&& t.host_size == host_size
            &&& forall|s: int|
                0 <= s < 2 ==> #[trigger] t.jmp_insn_offset@[s] == offset_for(
                    goto_offsets@,
                    from_aot,
                    s,
                    t0.jmp_insn_offset@[s],
                    1,
                )
            &&& forall|s: int|
                0 <= s < 2 ==> #[trigger] t.jmp_reset_offset@[s] == offset_for(
                    goto_offsets@,
                    from_aot,
                    s,
                    t0.jmp_reset_offset@[s],
                    2,
                )
        }),
        final(jc)@ == old(jc)@.update(jc_index(pc_of(*old(store), h)), h),
        jc_within(final(jc)@, *final(store)),
        host_size > 0 && !old(store).tb(h).invalid ==> final(store).lookup_spec(
            pc_of(*old(store), h),
            old(store).tb(h).flags,
        ) == Some(h),
{
    let ghost t0 = store.tb(h);
    {
        let tb = store.get_mut(h);
        tb.size = guest_size;
        tb.host_offset = host_offset;
        tb.host_size = host_size;
    }
    if !from_aot {
        let mut k: usize = 0;
        while k < goto_offsets.len()
            invariant
                store.wf(),
                store.is_handle(h),
                !store.in_table(h),
                store.tbs().len() == old(store).tbs().len(),
                store.chains() == old(store).chains(),
                forall|g: int|
                    0 <= g < old(store).tbs().len() && g != h - 1 ==> #[trigger] store.tbs()[g]
                        == old(store).tbs()[g],
                k <= goto_offsets@.len(),
                !from_aot,
                ({
                    let t = store.tb(h);
                    &&& t.pc == t0.pc && t.flags == t0.flags && t.cflags == t0.cflags
                    &&& t.invalid == t0.invalid && t.jmp == t0.jmp && t.hash_next == t0.hash_next
                    &&& t.size == guest_size
                    &&& t.host_offset == host_offset
                    &&& t.host_size == host_size
                    &&& forall|s: int|
                        0 <= s < 2 ==> #[trigger] t.jmp_insn_offset@[s] == offset_for(
                            goto_offsets@.take(k as int),
                            false,
                            s,
                            t0.jmp_insn_offset@[s],
                            1,
                        )
                    &&& forall|s: int|
                        0 <= s < 2 ==> #[trigger] t.jmp_reset_offset@[s] == offset_for(
                            goto_offsets@.take(k as int),
                            false,
                            s,
                            t0.jmp_reset_offset@[s],
                            2,
                        )
                }),
            decreases goto_offsets@.len() - k,
        {
            let (slot, jmp, reset) = goto_offsets[k];
            proof {
                assert(goto_offsets@.take(k + 1).drop_last() =~= goto_offsets@.take(k as int));
            }
            if slot < 2 {
                let ghost before = store.tb(h);
                let tb = store.get_mut(h);
                tb.set_jmp_insn_offset(slot, jmp as u32);
                tb.set_jmp_reset_offset(slot, reset as u32);
            }
            k += 1;
        }
        proof {
            assert(goto_offsets@.take(goto_offsets@.len() as int) =~= goto_offsets@);
        }
    }
    let ghost mid = *store;
    store.insert(h);
    proof {
        law_lookup_after_insert(mid, *store, h, t0.pc, t0.flags);
    }
    let pc = store.get(h).pc;
    jc.insert(pc, h);
    proof {
        let b = bucket_of(mid.tb(h));
        assert(store.chains()[b][0] == h);
        assert(store.tb(h) == with_hash_next(mid.tb(h), store.tb(h).hash_next));
        assert(bucket_of(store.tb(h)) == b);
        assert(store.chains()[b].contains(h));
        assert forall|i: int| 0 <= i < jc@.len() implies #[trigger] jc@[i] == 0
            || store.is_handle(jc@[i]) by {
            if i != jc_index(pc) {
                assert(jc@[i] == old(jc)@[i]);
            }
        }
    }
}

/// The PC of TB `h`.
pub open spec fn pc_of(s: TbStore, h: usize) -> u64 {
    s.tb(h).pc
}

/// Offset recorded for exit `slot` after applying the `goto_tb` entries
/// `offs` in order to the offset `init` (field 1: jump instruction, field
/// 2: reset target); entries for slots of 2 or more are ignored, and with
/// `from_aot` none is applied.
pub open spec fn offset_for(
    offs: Seq<(usize, usize, usize)>,
    from_aot: bool,
    slot: int,
    init: Option<u32>,
    field: int,
) -> Option<u32>
    decreases offs.len(),
{
    if from_aot || offs.len() == 0 {
        init
    } else {
        let e = offs.last();
        if e.0 as int == slot {
            Some(
                (if field == 1 {
                    e.1
                } else {
                    e.2
                }) as u32,
            )
        } else {
            offset_for(offs.drop_last(), false, slot, init, field)
        }
    }
}

// ---------------------------------------------------------------------
// Laws
// ---------------------------------------------------------------------

/// What `first_match` finds is a matching handle of the chain; when it
/// finds nothing, no handle of the chain from `k` on matches.
proof fn lemma_first_match(
    chain: Seq<usize>,
    tbs: Seq<TranslationBlock>,
    pc: u64,
    flags: u32,
    k: int,
)
    requires
        0 <= k,
    ensures
        first_match(chain, tbs, pc, flags, k) matches Some(x) ==> exists|j: int|
            k <= j < chain.len() && chain[j] == x && tb_matches(tbs[x - 1], pc, flags),
        first_match(chain, tbs, pc, flags, k) is None ==> forall|j: int|
            k <= j < chain.len() ==> !tb_matches(#[trigger] tbs[chain[j] - 1], pc, flags),
    decreases chain.len() - k,
{
    if k < chain.len() && !tb_matches(tbs[chain[k] - 1], pc, flags) {
        lemma_first_match(chain, tbs, pc, flags, k + 1);
    }
}

/// A lookup is exact: it returns a TB of the hash table that is valid,
/// translated and has the key asked for, and it returns `None` only when
/// the table holds no such TB.
pub proof fn law_lookup_exact(s: TbStore, pc: u64, flags: u32)
    requires
        s.wf(),
    ensures
        s.lookup_spec(pc, flags) matches Some(h) ==> s.is_handle(h) && s.in_table(h)
            && tb_matches(s.tb(h), pc, flags),
        s.lookup_spec(pc, flags) is None ==> forall|h: usize|
            s.is_handle(h) && #[trigger] s.in_table(h) ==> !tb_matches(s.tb(h), pc, flags),
{
    let b = tb_hash_spec(pc, flags) as int;
    let c = s.chains@[b];
    assert(s.chain_ok(b));
    lemma_first_match(c, s.tbs@, pc, flags, 0);
    if let Some(h) = s.lookup_spec(pc, flags) {
        let j = choose|j: int| 0 <= j < c.len() && c[j] == h && tb_matches(s.tbs@[h - 1], pc, flags);
        assert(1 <= c[j] <= s.tbs@.len());
        assert(bucket_of(s.tbs@[c[j] - 1]) == b);
        assert(c.contains(h));
    } else {
        assert forall|h: usize| s.is_handle(h) && #[trigger] s.in_table(h) implies !tb_matches(
            s.tb(h),
            pc,
            flags,
        ) by {
            if tb_matches(s.tb(h), pc, flags) {
                assert(bucket_of(s.tb(h)) == b);
                let j = choose|j: int| 0 <= j < c.len() && c[j] == h;
                assert(!tb_matches(s.tbs@[c[j] - 1], pc, flags));
            }
        }
    }
}

/// A lookup right after inserting a TB that is valid and translated finds
/// that TB for its key, and lookups of keys in other buckets are unchanged.
pub proof fn law_lookup_after_insert(before: TbStore, after: TbStore, h: usize, pc: u64, flags: u32)
    requires
        before.wf(),
        before.is_handle(h),
        inserted(before, after, h),
    ensures
        tb_matches(before.tb(h), pc, flags) ==> after.lookup_spec(pc, flags) == Some(h),
        tb_hash_spec(pc, flags) != bucket_of(before.tb(h)) ==> after.lookup_spec(pc, flags)
            == before.lookup_spec(pc, flags),
{
    let b = bucket_of(before.tb(h));
    let kb = tb_hash_spec(pc, flags) as int;
    assert(after.tbs()[h - 1] == with_hash_next(before.tb(h), after.tbs()[h - 1].hash_next));
    if tb_matches(before.tb(h), pc, flags) {
        assert(kb == b);
        assert(after.chains()[kb][0] == h);
        assert(tb_matches(after.tbs()[h - 1], pc, flags));
    }
    if kb != b {
        assert(before.chain_ok(kb));
        assert(before.chains()[kb] == after.chains()[kb]);
        lemma_first_match_same(before.chains()[kb], before.tbs(), after.tbs(), pc, flags, 0);
    }
}

/// `first_match` depends only on whether the TBs of the chain match.
proof fn lemma_first_match_same(
    chain: Seq<usize>,
    t1: Seq<TranslationBlock>,
    t2: Seq<TranslationBlock>,
    pc: u64,
    flags: u32,
    k: int,
)
    requires
        0 <= k,
        forall|j: int|
            k <= j < chain.len() ==> tb_matches(#[trigger] t1[chain[j] - 1], pc, flags)
                == tb_matches(t2[chain[j] - 1], pc, flags),
    ensures
        first_match(chain, t1, pc, flags, k) == first_match(chain, t2, pc, flags, k),
    decreases chain.len() - k,
{
    if k < chain.len() {
        assert(tb_matches(t1[chain[k] - 1], pc, flags) == tb_matches(t2[chain[k] - 1], pc, flags));
        lemma_first_match_same(chain, t1, t2, pc, flags, k + 1);
    }
}

/// After invalidating a TB no lookup returns it, it is out of the hash
/// table and has no chaining edges, and every TB that was chained into it
/// has that exit cleared.
pub proof fn law_invalidate_detaches(before: TbStore, after: TbStore, h: usize, pc: u64, flags: u32)
    requires
        before.wf(),
        after.wf(),
        before.is_handle(h),
        invalidated(before.tbs(), after.tbs(), h),
        ({
            let b = bucket_of(before.tb(h));
            let c = before.chains()[b];
            &&& after.chains() == if c.contains(h) {
                before.chains().update(b, c.remove(c.index_of(h)))
            } else {
                before.chains()
            }
        }),
    ensures
        after.lookup_spec(pc, flags) != Some(h),
        !after.in_table(h),
        after.tb(h).invalid,
        after.tb(h).jmp.jmp_dest@ =~= seq![None::<usize>, None::<usize>],
        after.tb(h).jmp.jmp_list@.len() == 0,
        forall|i: int|
            0 <= i < before.tb(h).jmp.jmp_list@.len() ==> after.tb(
                (#[trigger] before.tb(h).jmp.jmp_list@[i]).0,
            ).jmp.jmp_dest@[before.tb(h).jmp.jmp_list@[i].1 as int] is None,
{
    let b = bucket_of(before.tb(h));
    let c = before.chains()[b];
    let l = before.tb(h).jmp.jmp_list@;
    assert(same_but_links(before.tbs()[h - 1], after.tbs()[h - 1]));
    assert(bucket_of(after.tb(h)) == b);
    law_lookup_exact(after, pc, flags);
    assert(before.chain_ok(b));
    if c.contains(h) {
        let k = c.index_of(h);
        assert(c[k] == h);
        let cc = c.remove(k);
        if cc.contains(h) {
            let j = choose|j: int| 0 <= j < cc.len() && cc[j] == h;
            if j < k {
                assert(c[j] == h);
            } else {
                assert(c[j + 1] == h);
            }
        }
    }
    assert(edges_within(before.tbs()[h - 1], before.tbs().len()));
    assert forall|i: int|
        0 <= i < l.len() implies after.tb((#[trigger] l[i]).0).jmp.jmp_dest@[l[i].1 as int] is None by {
        assert(1 <= l[i].0 <= before.tbs().len() && l[i].1 < 2);
        assert(l.contains(l[i]));
        let g = l[i].0 - 1;
        assert(after.tbs()[g].jmp.jmp_dest@[l[i].1 as int] == if g == h - 1 || l.contains(
            ((g + 1) as usize, l[i].1),
        ) {
            None
        } else {
            before.tbs()[g].jmp.jmp_dest@[l[i].1 as int]
        });
    }
    assert(after.tbs()[h - 1].jmp.jmp_dest@[0] is None);
    assert(after.tbs()[h - 1].jmp.jmp_dest@[1] is None);
}

/// After chaining exit `slot` of `src` to `dst`, the edge is recorded on
/// both ends.
pub proof fn law_add_jump_records_edge(
    before: Seq<TranslationBlock>,
    after: Seq<TranslationBlock>,
    src: usize,
    slot: usize,
    dst: usize,
)
    requires
        1 <= src <= before.len(),
        1 <= dst <= before.len(),
        slot < 2,
        chained(before, after, src, slot, dst),
    ensures
        after[src - 1].jmp.jmp_dest@[slot as int] == Some(dst),
        after[dst - 1].jmp.jmp_list@.contains((src, slot)),
        after[dst - 1].jmp.jmp_list@.len() == before[dst - 1].jmp.jmp_list@.len() + 1,
{
    let l = after[dst - 1].jmp.jmp_list@;
    assert(l[l.len() - 1] == (src, slot));
}

} // verus!
