//! The decisions of the execution loop. Running generated code,
//! translating guest code and patching jumps in the code buffer are done by
//! the driver; after each of them it reports what happened as an event and
//! gets back the next action.

use vstd::prelude::*;

use crate::exec::{ExecStats, ExitReason};
use crate::tb::{JumpCache, TranslationBlock, TB_EXIT_NOCHAIN, TB_JMP_CACHE_SIZE};
use crate::tb_store::{
    add_jump_result, add_jump_stats, find_cache, find_result, find_stats, jc_within,
    jump_added, lemma_exit_target_within, tb_find, tb_matches, TbStore,
};

verus! {

/// What a requested translation is for.
#[derive(Debug, Clone, Copy, PartialEq, Eq, Structural)]
pub enum Pending {
    /// The TB is run next.
    Run,
    /// The TB is the target of exit `slot` of TB `src`.
    Chain { src: usize, slot: usize },
    /// The TB is the target of an indirect exit of TB `src`.
    Indirect { src: usize },
}

/// What the next step of the loop is.
#[derive(Debug, Clone, Copy, PartialEq, Eq)]
pub enum LoopAction {
    /// Run TB `tb`, then report `on_ran`.
    Run { tb: usize },
    /// Translate the block at `(pc, flags)`, install it, then report
    /// `on_translated`.
    Translate { pc: u64, flags: u32 },
    /// Apply the jump patch `(jump offset, target offset)`, if any, then
    /// begin the next iteration with `on_fetch`.
    Next { patch: Option<(usize, usize)> },
    /// Leave the loop.
    Stop(ExitReason),
}

/// The TB that an action runs, if it is `Run`.
pub open spec fn run_target(a: LoopAction) -> Option<usize> {
    match a {
        LoopAction::Run { tb } => Some(tb),
        _ => None,
    }
}

/// Every counter has room for one more.
pub open spec fn room(s: ExecStats) -> bool {
    &&& s.loop_iters < u64::MAX && s.jc_hit < u64::MAX && s.ht_hit < u64::MAX
    &&& s.translate < u64::MAX && s.chain_exit[0] < u64::MAX && s.chain_exit[1] < u64::MAX
    &&& s.nochain_exit < u64::MAX && s.real_exit < u64::MAX && s.chain_patched < u64::MAX
    &&& s.chain_already < u64::MAX && s.hint_used < u64::MAX && s.exit_target_hit < u64::MAX
    &&& s.exit_target_miss < u64::MAX
}

/// What each CPU keeps for itself: its TB jump cache and its loop
/// statistics.
pub struct PerCpuState {
    pub jump_cache: JumpCache,
    pub stats: ExecStats,
}

impl PerCpuState {
    /// An empty jump cache and zero statistics.
    pub fn new() -> (s: Self)
        ensures
            s.jump_cache@ == Seq::new(TB_JMP_CACHE_SIZE as nat, |i: int| 0usize),
            s.stats.is_zero(),
    {
        PerCpuState { jump_cache: JumpCache::new(), stats: ExecStats::new() }
    }
}

/// State of the execution loop of one CPU between steps.
pub struct ExecLoop {
    /// TB to run next without a lookup.
    pub next_tb_hint: Option<usize>,
    /// TB run last.
    pub current: usize,
    /// What the translation asked for last is for.
    pub pending: Pending,
    /// Number of TBs after which the loop stops; 0 for no limit. With a
    /// limit, the last eight PCs are recorded and jumps are not chained.
    pub tb_limit: u64,
    /// TBs started so far (counted only with a limit).
    pub tb_count: u64,
    /// The last eight PCs, in a ring indexed by `tb_count % 8`.
    pub last_pcs: [u64; 8],
}

impl ExecLoop {
    /// A loop with the given TB limit (0 for none) and nothing run yet.
    pub fn new(tb_limit: u64) -> (l: Self)
        ensures
            l.next_tb_hint is None,
            l.pending == Pending::Run,
            l.tb_limit == tb_limit,
            l.tb_count == 0,
            l.last_pcs@ == seq![0u64; 8],
    {
        let l = ExecLoop {
            next_tb_hint: None,
            current: 0,
            pending: Pending::Run,
            tb_limit,
            tb_count: 0,
            last_pcs: [0, 0, 0, 0, 0, 0, 0, 0],
        };
        assert(l.last_pcs@ =~= seq![0u64; 8]);
        l
    }

    /// The handles that the state refers to are TBs of `store`.
    pub open spec fn refs_within(&self, store: TbStore) -> bool {
        &&& self.next_tb_hint matches Some(h) ==> store.is_handle(h)
        &&& match self.pending {
            Pending::Run => true,
            Pending::Chain { src, slot } => store.is_handle(src) && slot < 2,
            Pending::Indirect { src } => store.is_handle(src),
        }
    }

    /// Start of an iteration with the CPU at `(pc, flags)`: counts it,
    /// records the PC and stops at the TB limit when there is one, then
    /// runs the hinted TB, or the one that `tb_find` gives, or asks for a
    /// translation.
    pub fn on_fetch(
        &mut self,
        store: &TbStore,
        jc: &mut JumpCache,
        stats: &mut ExecStats,
        pc: u64,
        flags: u32,
    ) -> (r: LoopAction)
        requires
            store.wf(),
            old(jc)@.len() == TB_JMP_CACHE_SIZE,
            jc_within(old(jc)@, *store),
            room(*old(stats)),
            old(self).tb_count < u64::MAX,
            old(self).refs_within(*store),
        ensures
            final(jc)@.len() == TB_JMP_CACHE_SIZE,
            jc_within(final(jc)@, *store),
            final(self).refs_within(*store),
            final(self).tb_limit == old(self).tb_limit,
            ({
                let s1 = ExecStats { loop_iters: (old(stats).loop_iters + 1) as u64, ..*old(stats) };
                let traced = old(self).tb_limit > 0;
                let count = if traced {
                    old(self).tb_count + 1
                } else {
                    old(self).tb_count as int
                };
                &&& final(self).tb_count == count
                &&& final(self).last_pcs@ == if traced {
                    old(self).last_pcs@.update((old(self).tb_count % 8) as int, pc)
                } else {
                    old(self).last_pcs@
                }
                &&& if traced && count > old(self).tb_limit {
                    &&& r == LoopAction::Stop(ExitReason::Exit(0xff))
                    &&& *final(stats) == s1
                    &&& final(jc)@ == old(jc)@
                    &&& final(self).next_tb_hint == old(self).next_tb_hint
                    &&& final(self).pending == old(self).pending
                } else if old(self).next_tb_hint is Some {
                    &&& r == LoopAction::Run { tb: old(self).next_tb_hint->0 }
                    &&& final(self).current == old(self).next_tb_hint->0
                    &&& final(self).next_tb_hint is None
                    &&& final(self).pending == old(self).pending
                    &&& *final(stats) == ExecStats { hint_used: (s1.hint_used + 1) as u64, ..s1 }
                    &&& final(jc)@ == old(jc)@
                } else {
                    &&& final(jc)@ == find_cache(*store, old(jc)@, pc, flags)
                    &&& *final(stats) == find_stats(*store, old(jc)@, s1, pc, flags)
                    &&& final(self).next_tb_hint is None
                    &&& if find_result(*store, old(jc)@, pc, flags) is Some {
                        let h = find_result(*store, old(jc)@, pc, flags)->0;
                        &&& r == LoopAction::Run { tb: h }
                        &&& final(self).current == h
                        &&& final(self).pending == old(self).pending
                        &&& tb_matches(store.tb(h), pc, flags)
                    } else {
                        &&& r == LoopAction::Translate { pc, flags }
                        &&& final(self).pending == Pending::Run
                    }
                }
            }),
    {
        stats.loop_iters = stats.loop_iters + 1;
        if self.tb_limit > 0 {
            proof {
                vstd::bits::lemma_u64_low_bits_mask_is_mod(self.tb_count, 3);
                vstd::bits::lemma_low_bits_mask_values();
                vstd::arithmetic::power2::lemma2_to64();
            }
            let i = (self.tb_count & 7) as usize;
            self.last_pcs[i] = pc;
            self.tb_count = self.tb_count + 1;
            if self.tb_count > self.tb_limit {
                return LoopAction::Stop(ExitReason::Exit(0xff));
            }
        }
        match self.next_tb_hint {
            Some(h) => {
                self.next_tb_hint = None;
                stats.hint_used = stats.hint_used + 1;
                self.current = h;
                LoopAction::Run { tb: h }
            },
            None => {
                match tb_find(store, jc, stats, pc, flags) {
                    Some(h) => {
                        self.current = h;
                        LoopAction::Run { tb: h }
                    },
                    None => {
                        self.pending = Pending::Run;
                        LoopAction::Translate { pc, flags }
                    },
                }
            },
        }
    }

    /// The TB run last has returned exit `code`, naming TB `last_tb` as the
    /// one it left from (the TB run last when `None`), with the CPU now at
    /// `(pc, flags)`. A chainable exit (0 or 1) finds or asks for the next
    /// TB and, without a TB limit, chains the jump; an indirect exit first
    /// tries the target cached on the source TB; any other code leaves the
    /// loop.
    pub fn on_ran(
        &mut self,
        store: &mut TbStore,
        jc: &mut JumpCache,
        stats: &mut ExecStats,
        last_tb: Option<usize>,
        code: usize,
        pc: u64,
        flags: u32,
    ) -> (r: LoopAction)
        requires
            old(store).wf(),
            old(jc)@.len() == TB_JMP_CACHE_SIZE,
            jc_within(old(jc)@, *old(store)),
            room(*old(stats)),
            old(self).refs_within(*old(store)),
            old(store).is_handle(
                match last_tb {
                    Some(t) => t,
                    None => old(self).current,
                },
            ),
        ensures
            final(store).wf(),
            final(store).tbs().len() == old(store).tbs().len(),
            final(store).chains() == old(store).chains(),
            final(jc)@.len() == TB_JMP_CACHE_SIZE,
            jc_within(final(jc)@, *final(store)),
            final(self).refs_within(*final(store)),
            final(self).tb_limit == old(self).tb_limit,
            final(self).tb_count == old(self).tb_count,
            final(self).last_pcs == old(self).last_pcs,
            ({
                let src = match last_tb {
                    Some(t) => t,
                    None => old(self).current,
                };
                let st = *old(store);
                let jc0 = old(jc)@;
                if code <= 1 {
                    let found = find_result(st, jc0, pc, flags);
                    let s1 = find_stats(st, jc0, *old(stats), pc, flags);
                    &&& final(stats).chain_exit@ == old(stats).chain_exit@.update(
                        code as int,
                        (old(stats).chain_exit[code as int] + 1) as u64,
                    )
                    &&& final(jc)@ == find_cache(st, jc0, pc, flags)
                    &&& if found is Some {
                        let dst = found->0;
                        &&& final(self).next_tb_hint == Some(dst)
                        &&& if old(self).tb_limit == 0 {
                            &&& r == LoopAction::Next { patch: add_jump_result(st, src, code, dst) }
                            &&& *final(stats) == ExecStats {
                                chain_exit: final(stats).chain_exit,
                                ..add_jump_stats(st, s1, src, code, dst)
                            }
                            &&& jump_added(st, *final(store), src, code, dst)
                        } else {
                            &&& r == LoopAction::Next { patch: None }
                            &&& *final(stats) == ExecStats { chain_exit: final(stats).chain_exit, ..s1 }
                            &&& *final(store) == st
                        }
                    } else {
                        &&& r == LoopAction::Translate { pc, flags }
                        &&& final(self).pending == Pending::Chain { src, slot: code }
                        &&& *final(stats) == ExecStats { chain_exit: final(stats).chain_exit, ..s1 }
                        &&& *final(store) == st
                    }
                } else if code == TB_EXIT_NOCHAIN {
                    let cached = st.tb(src).exit_target;
                    let s0 = ExecStats {
                        nochain_exit: (old(stats).nochain_exit + 1) as u64,
                        ..*old(stats)
                    };
                    if cached != 0 && tb_matches(st.tb(cached), pc, flags) {
                        &&& r == LoopAction::Next { patch: None }
                        &&& final(self).next_tb_hint == Some(cached)
                        &&& *final(stats) == ExecStats {
                            exit_target_hit: (s0.exit_target_hit + 1) as u64,
                            ..s0
                        }
                        &&& final(store).tbs() == st.tbs().update(
                            cached - 1,
                            TranslationBlock { indirect_target: true, ..st.tb(cached) },
                        )
                        &&& final(jc)@ == jc0
                    } else {
                        let s2 = if cached != 0 {
                            ExecStats { exit_target_miss: (s0.exit_target_miss + 1) as u64, ..s0 }
                        } else {
                            s0
                        };
                        let found = find_result(st, jc0, pc, flags);
                        &&& final(jc)@ == find_cache(st, jc0, pc, flags)
                        &&& *final(stats) == find_stats(st, jc0, s2, pc, flags)
                        &&& if found is Some {
                            let dst = found->0;
                            let t1 = st.tbs().update(
                                dst - 1,
                                TranslationBlock { indirect_target: true, ..st.tb(dst) },
                            );
                            &&& r == LoopAction::Next { patch: None }
                            &&& final(self).next_tb_hint == Some(dst)
                            &&& final(store).tbs() == t1.update(
                                src - 1,
                                TranslationBlock { exit_target: dst, ..t1[src - 1] },
                            )
                        } else {
                            &&& r == LoopAction::Translate { pc, flags }
                            &&& final(self).pending == Pending::Indirect { src }
                            &&& *final(store) == st
                        }
                    }
                } else {
                    &&& r == LoopAction::Stop(ExitReason::Exit(code))
                    &&& *final(stats) == ExecStats {
                        real_exit: (old(stats).real_exit + 1) as u64,
                        ..*old(stats)
                    }
                    &&& *final(store) == st
                    &&& final(jc)@ == jc0
                }
            }),
    {
        let src = match last_tb {
            Some(t) => t,
            None => self.current,
        };
        if code <= 1 {
            stats.chain_exit[code] = stats.chain_exit[code] + 1;
            match tb_find(store, jc, stats, pc, flags) {
                Some(dst) => {
                    let patch = if self.tb_limit == 0 {
                        store.tb_add_jump(stats, src, code, dst)
                    } else {
                        None
                    };
                    self.next_tb_hint = Some(dst);
                    LoopAction::Next { patch }
                },
                None => {
                    self.pending = Pending::Chain { src, slot: code };
                    LoopAction::Translate { pc, flags }
                },
            }
        } else if code == TB_EXIT_NOCHAIN as usize {
            stats.nochain_exit = stats.nochain_exit + 1;
            let cached = store.get(src).exit_target;
            if cached != 0 {
                proof {
                    lemma_exit_target_within(*store, src);
                }
                let ct = store.get(cached);
                if !ct.invalid && ct.pc == pc && ct.flags == flags && ct.host_size > 0 {
                    stats.exit_target_hit = stats.exit_target_hit + 1;
                    store.mark_indirect_target(cached);
                    self.next_tb_hint = Some(cached);
                    return LoopAction::Next { patch: None };
                }
                stats.exit_target_miss = stats.exit_target_miss + 1;
            }
            match tb_find(store, jc, stats, pc, flags) {
                Some(dst) => {
                    store.mark_indirect_target(dst);
                    store.set_exit_target(src, dst);
                    self.next_tb_hint = Some(dst);
                    LoopAction::Next { patch: None }
                },
                None => {
                    self.pending = Pending::Indirect { src };
                    LoopAction::Translate { pc, flags }
                },
            }
        } else {
            stats.real_exit = stats.real_exit + 1;
            LoopAction::Stop(ExitReason::Exit(code))
        }
    }

    /// The translation asked for has been installed as TB `tb`, or could
    /// not be made because the code buffer is full (`None`). For a TB to
    /// run, runs it; for the target of a chainable exit, chains the jump
    /// (without a TB limit) and hints the TB; for the target of an indirect
    /// exit, marks it as such, caches it on the source and hints it.
    pub fn on_translated(&mut self, store: &mut TbStore, stats: &mut ExecStats, tb: Option<usize>) -> (r:
        LoopAction)
        requires
            old(store).wf(),
            room(*old(stats)),
            old(self).refs_within(*old(store)),
            tb matches Some(h) ==> old(store).is_handle(h),
        ensures
            final(store).wf(),
            final(store).tbs().len() == old(store).tbs().len(),
            final(store).chains() == old(store).chains(),
            final(self).refs_within(*final(store)),
            final(self).tb_limit == old(self).tb_limit,
            final(self).tb_count == old(self).tb_count,
            final(self).last_pcs == old(self).last_pcs,
            match tb {
                None => {
                    &&& r == LoopAction::Stop(ExitReason::BufferFull)
                    &&& *final(store) == *old(store)
                    &&& *final(stats) == *old(stats)
                    &&& final(self).next_tb_hint == old(self).next_tb_hint
                },
                Some(h) => match old(self).pending {
                    Pending::Run => {
                        &&& r == LoopAction::Run { tb: h }
                        &&& final(self).current == h
                        &&& *final(store) == *old(store)
                        &&& *final(stats) == *old(stats)
                        &&& final(self).next_tb_hint == old(self).next_tb_hint
                    },
                    Pending::Chain { src, slot } => {
                        &&& final(self).next_tb_hint == Some(h)
                        &&& if old(self).tb_limit == 0 {
                            &&& r == LoopAction::Next {
                                patch: add_jump_result(*old(store), src, slot, h),
                            }
                            &&& *final(stats) == add_jump_stats(
                                *old(store),
                                *old(stats),
                                src,
                                slot,
                                h,
                            )
                            &&& jump_added(*old(store), *final(store), src, slot, h)
                        } else {
                            &&& r == LoopAction::Next { patch: None }
                            &&& *final(store) == *old(store)
                            &&& *final(stats) == *old(stats)
                        }
                    },
                    Pending::Indirect { src } => {
                        let t1 = old(store).tbs().update(
                            h - 1,
                            TranslationBlock { indirect_target: true, ..old(store).tb(h) },
                        );
                        &&& r == LoopAction::Next { patch: None }
                        &&& final(self).next_tb_hint == Some(h)
                        &&& *final(stats) == *old(stats)
                        &&& final(store).tbs() == t1.update(
                            src - 1,
                            TranslationBlock { exit_target: h, ..t1[src - 1] },
                        )
                    },
                },
            },
    {
        let h = match tb {
            Some(h) => h,
            None => {
                return LoopAction::Stop(ExitReason::BufferFull);
            },
        };
        match self.pending {
            Pending::Run => {
                self.current = h;
                LoopAction::Run { tb: h }
            },
            Pending::Chain { src, slot } => {
                let patch = if self.tb_limit == 0 {
                    store.tb_add_jump(stats, src, slot, h)
                } else {
                    None
                };
                self.next_tb_hint = Some(h);
                LoopAction::Next { patch }
            },
            Pending::Indirect { src } => {
                store.mark_indirect_target(h);
                store.set_exit_target(src, h);
                self.next_tb_hint = Some(h);
                LoopAction::Next { patch: None }
            },
        }
    }
}

} // verus!
