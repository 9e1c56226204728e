//! State synchronization between the translator and QEMU, and comparison of
//! their execution results.

use vstd::prelude::*;

use crate::qemu_bridge::{mem_writes_equal, copy_mem_writes, MemWrite, QemuExecResult};
use crate::qemu_cpu_state::{texts, Aarch64CpuState, QemuCpuState, RiscvCpuState};
use crate::text::{bool_text, copy_strings, dec_text, hex_text, push_bool, push_dec, push_hex, str_eq};
use crate::time::{now, ExecTime, MAX_TIME_NANOS};

verus! {

/// The guest architectures that have a CPU state: `aarch64` and `riscv64`.
pub open spec fn is_supported_arch(arch: Seq<char>) -> bool {
    arch == seq!['a', 'a', 'r', 'c', 'h', '6', '4'] || arch == seq!['r', 'i', 's', 'c', 'v', '6', '4']
}

/// The zeroed CPU state of a supported architecture.
pub open spec fn initial_state_for(arch: Seq<char>, s: QemuCpuState) -> bool {
    if arch == seq!['a', 'a', 'r', 'c', 'h', '6', '4'] {
        s matches QemuCpuState::Aarch64(a) && a.is_zero()
    } else {
        s matches QemuCpuState::Riscv64(r) && r.is_zero()
    }
}

/// State of a differential test run.
#[derive(Clone, Copy, Debug)]
pub struct DifftestState {
    pub tcg_state: QemuCpuState,
    pub qemu_state: QemuCpuState,
    pub current_pc: u64,
    pub tb_count: u64,
    pub mismatch_count: u64,
    pub last_sync_pc: u64,
}

impl DifftestState {
    /// Zeroed states of the given architecture, at PC 0, with no TBs run.
    pub fn new(arch: &str) -> (s: Self)
        requires
            is_supported_arch(arch@),
        ensures
            initial_state_for(arch@, s.tcg_state),
            s.qemu_state == s.tcg_state,
            s.current_pc == 0,
            s.tb_count == 0,
            s.mismatch_count == 0,
            s.last_sync_pc == 0,
    {
        proof {
            reveal_strlit("aarch64");
            assert("aarch64"@ == seq!['a', 'a', 'r', 'c', 'h', '6', '4']);
        }
        let state = if str_eq(arch, "aarch64") {
            QemuCpuState::Aarch64(Aarch64CpuState::new())
        } else {
            QemuCpuState::Riscv64(RiscvCpuState::new())
        };
        DifftestState {
            tcg_state: state,
            qemu_state: state,
            current_pc: 0,
            tb_count: 0,
            mismatch_count: 0,
            last_sync_pc: 0,
        }
    }

    /// Both sides start from `state`.
    pub fn with_initial_state(self, state: QemuCpuState) -> (s: Self)
        ensures
            s == (DifftestState { tcg_state: state, qemu_state: state, ..self }),
    {
        let mut s = self;
        s.tcg_state = state;
        s.qemu_state = state;
        s
    }

    /// Execution starts, and was last synchronized, at `pc`.
    pub fn with_pc(self, pc: u64) -> (s: Self)
        ensures
            s == (DifftestState { current_pc: pc, last_sync_pc: pc, ..self }),
    {
        let mut s = self;
        s.current_pc = pc;
        s.last_sync_pc = pc;
        s
    }

    pub fn increment_tb_count(&mut self)
        requires
            old(self).tb_count < u64::MAX,
        ensures
            *final(self) == (DifftestState { tb_count: (old(self).tb_count + 1) as u64, ..*old(self) }),
    {
        self.tb_count += 1;
    }

    pub fn record_mismatch(&mut self)
        requires
            old(self).mismatch_count < u64::MAX,
        ensures
            *final(self) == (DifftestState {
                mismatch_count: (old(self).mismatch_count + 1) as u64,
                ..*old(self)
            }),
    {
        self.mismatch_count += 1;
    }

    pub fn update_pc(&mut self, pc: u64)
        ensures
            *final(self) == (DifftestState { current_pc: pc, ..*old(self) }),
    {
        self.current_pc = pc;
    }

    pub fn sync_from_tcg(&mut self, state: &QemuCpuState)
        ensures
            *final(self) == (DifftestState { tcg_state: *state, ..*old(self) }),
    {
        self.tcg_state = *state;
    }

    pub fn sync_from_qemu(&mut self, state: &QemuCpuState)
        ensures
            *final(self) == (DifftestState { qemu_state: *state, ..*old(self) }),
    {
        self.qemu_state = *state;
    }
}

/// Why a synchronization happened.
#[derive(Clone, Copy, Debug, PartialEq, Eq, Structural)]
pub enum SyncReason {
    Interval,
    Forced,
    Mismatch,
    Manual,
}

/// A synchronization point.
#[derive(Clone, Copy, Debug)]
pub struct SyncRecord {
    pub pc: u64,
    pub timestamp: std::time::Instant,
    pub reason: SyncReason,
}

/// The PCs and reasons of a synchronization history.
pub open spec fn history_view(h: Seq<SyncRecord>) -> Seq<(u64, SyncReason)> {
    h.map_values(|r: SyncRecord| (r.pc, r.reason))
}

/// Decides when the two sides synchronize their state: every
/// `sync_interval` TBs, always at forced PCs and never at skipped PCs.
pub struct StateSynchronizer {
    sync_interval: usize,
    tb_since_sync: usize,
    force_sync_pcs: Vec<u64>,
    skip_sync_pcs: Vec<u64>,
    sync_history: Vec<SyncRecord>,
}

impl StateSynchronizer {
    pub closed spec fn spec_interval(&self) -> usize {
        self.sync_interval
    }

    /// TBs since the last synchronization.
    pub closed spec fn spec_since_sync(&self) -> usize {
        self.tb_since_sync
    }

    pub closed spec fn spec_force_pcs(&self) -> Seq<u64> {
        self.force_sync_pcs@
    }

    pub closed spec fn spec_skip_pcs(&self) -> Seq<u64> {
        self.skip_sync_pcs@
    }

    /// PCs and reasons of the recorded synchronizations, oldest first.
    pub closed spec fn spec_history(&self) -> Seq<(u64, SyncReason)> {
        history_view(self.sync_history@)
    }

    /// The counter of TBs since the last synchronization is below its limit.
    pub open spec fn inv(&self) -> bool {
        self.spec_since_sync() < usize::MAX
    }

    /// Everything but the counter and the history is as in `other`.
    pub open spec fn same_settings(&self, other: &Self) -> bool {
        &&& self.spec_interval() == other.spec_interval()
        &&& self.spec_force_pcs() == other.spec_force_pcs()
        &&& self.spec_skip_pcs() == other.spec_skip_pcs()
    }

    /// Synchronize after every TB, no forced or skipped PCs, empty history.
    pub fn new() -> (s: Self)
        ensures
            s.inv(),
            s.spec_interval() == 1,
            s.spec_since_sync() == 0,
            s.spec_force_pcs().len() == 0,
            s.spec_skip_pcs().len() == 0,
            s.spec_history().len() == 0,
    {
        let s = StateSynchronizer {
            sync_interval: 1,
            tb_since_sync: 0,
            force_sync_pcs: Vec::new(),
            skip_sync_pcs: Vec::new(),
            sync_history: Vec::new(),
        };
        assert(s.spec_history() =~= Seq::<(u64, SyncReason)>::empty());
        s
    }

    /// The same synchronizer with the interval set to `interval` TBs.
    pub fn with_interval(self, interval: usize) -> (s: Self)
        ensures
            s.spec_interval() == interval,
            s.spec_since_sync() == self.spec_since_sync(),
            s.spec_force_pcs() == self.spec_force_pcs(),
            s.spec_skip_pcs() == self.spec_skip_pcs(),
            s.spec_history() == self.spec_history(),
    {
        let mut s = self;
        s.sync_interval = interval;
        s
    }

    pub fn add_force_sync_pc(&mut self, pc: u64)
        ensures
            final(self).spec_force_pcs() == old(self).spec_force_pcs().push(pc),
            final(self).spec_interval() == old(self).spec_interval(),
            final(self).spec_since_sync() == old(self).spec_since_sync(),
            final(self).spec_skip_pcs() == old(self).spec_skip_pcs(),
            final(self).spec_history() == old(self).spec_history(),
    {
        self.force_sync_pcs.push(pc);
    }

    pub fn add_skip_sync_pc(&mut self, pc: u64)
        ensures
            final(self).spec_skip_pcs() == old(self).spec_skip_pcs().push(pc),
            final(self).spec_interval() == old(self).spec_interval(),
            final(self).spec_since_sync() == old(self).spec_since_sync(),
            final(self).spec_force_pcs() == old(self).spec_force_pcs(),
            final(self).spec_history() == old(self).spec_history(),
    {
        self.skip_sync_pcs.push(pc);
    }

    /// Decides whether to synchronize at `pc` after one more TB. A skipped
    /// PC never synchronizes and changes nothing. A forced PC always does and
    /// restarts the count. Otherwise the count goes up, and reaching the
    /// interval synchronizes and restarts it. Each synchronization is
    /// recorded with its reason.
    pub fn should_sync(&mut self, pc: u64) -> (r: bool)
        requires
            old(self).inv(),
        ensures
            final(self).inv(),
            final(self).same_settings(old(self)),
            old(self).spec_skip_pcs().contains(pc) ==> !r && final(self).spec_since_sync()
                == old(self).spec_since_sync() && final(self).spec_history() == old(
                self,
            ).spec_history(),
            !old(self).spec_skip_pcs().contains(pc) && old(self).spec_force_pcs().contains(pc)
                ==> r && final(self).spec_since_sync() == 0 && final(self).spec_history() == old(
                self,
            ).spec_history().push((pc, SyncReason::Forced)),
            !old(self).spec_skip_pcs().contains(pc) && !old(self).spec_force_pcs().contains(pc)
                ==> ({
                let (since, fired) = interval_step(
                    old(self).spec_since_sync() as nat,
                    old(self).spec_interval() as nat,
                );
                &&& r == fired
                &&& final(self).spec_since_sync() == since
                &&& final(self).spec_history() == if fired {
                    old(self).spec_history().push((pc, SyncReason::Interval))
                } else {
                    old(self).spec_history()
                }
            }),
    {
        if contains_pc(&self.skip_sync_pcs, pc) {
            return false;
        }
        if contains_pc(&self.force_sync_pcs, pc) {
            self.tb_since_sync = 0;
            self.push_record(pc, SyncReason::Forced);
            return true;
        }
        self.tb_since_sync += 1;
        if self.tb_since_sync >= self.sync_interval {
            self.tb_since_sync = 0;
            self.push_record(pc, SyncReason::Interval);
            true
        } else {
            false
        }
    }

    fn push_record(&mut self, pc: u64, reason: SyncReason)
        ensures
            final(self).spec_history() == old(self).spec_history().push((pc, reason)),
            final(self).spec_since_sync() == old(self).spec_since_sync(),
            final(self).same_settings(old(self)),
    {
        let timestamp = now();
        self.sync_history.push(SyncRecord { pc, timestamp, reason });
        assert(self.spec_history() =~= old(self).spec_history().push((pc, reason)));
    }

    /// Records a synchronization at `pc` for the given reason.
    pub fn record_sync(&mut self, pc: u64, reason: SyncReason)
        ensures
            final(self).spec_history() == old(self).spec_history().push((pc, reason)),
            final(self).spec_since_sync() == old(self).spec_since_sync(),
            final(self).same_settings(old(self)),
    {
        self.push_record(pc, reason);
    }

    pub fn get_sync_history(&self) -> (r: &Vec<SyncRecord>)
        ensures
            history_view(r@) == self.spec_history(),
    {
        &self.sync_history
    }

    /// Restarts the count of TBs since the last synchronization.
    pub fn reset(&mut self)
        ensures
            final(self).spec_since_sync() == 0,
            final(self).spec_history() == old(self).spec_history(),
            final(self).same_settings(old(self)),
    {
        self.tb_since_sync = 0;
    }

    pub fn clear_history(&mut self)
        ensures
            final(self).spec_history().len() == 0,
            final(self).spec_since_sync() == old(self).spec_since_sync(),
            final(self).same_settings(old(self)),
    {
        self.sync_history.clear();
        assert(self.spec_history() =~= Seq::<(u64, SyncReason)>::empty());
    }
}

impl Default for StateSynchronizer {
    fn default() -> (s: Self)
        ensures
            s.inv(),
            s.spec_interval() == 1,
            s.spec_since_sync() == 0,
            s.spec_force_pcs().len() == 0,
            s.spec_skip_pcs().len() == 0,
            s.spec_history().len() == 0,
    {
        Self::new()
    }
}

/// One TB at an ordinary PC: the new count since the last synchronization
/// and whether it synchronizes.
pub open spec fn interval_step(since: nat, interval: nat) -> (nat, bool) {
    if since + 1 >= interval {
        (0, true)
    } else {
        (since + 1, false)
    }
}

/// The count after `k` TBs at ordinary PCs, starting from `since`.
pub open spec fn interval_steps(since: nat, interval: nat, k: nat) -> nat
    decreases k,
{
    if k == 0 {
        since
    } else {
        interval_step(interval_steps(since, interval, (k - 1) as nat), interval).0
    }
}

/// Starting right after a synchronization, with an interval of `n >= 1` TBs
/// and no forced or skipped PCs, the first `n - 1` TBs do not synchronize,
/// the `n`-th does, and the count then starts over.
pub proof fn law_sync_every_interval(n: nat, k: nat)
    requires
        n >= 1,
        k < n,
    ensures
        interval_steps(0, n, k) == k,
        k + 1 < n ==> !interval_step(interval_steps(0, n, k), n).1,
        k + 1 == n ==> interval_step(interval_steps(0, n, k), n).1,
        interval_steps(0, n, n) == 0,
    decreases k,
{
    if k > 0 {
        law_sync_every_interval(n, (k - 1) as nat);
    }
    lemma_steps_below(n, (n - 1) as nat);
}

proof fn lemma_steps_below(n: nat, k: nat)
    requires
        n >= 1,
        k < n,
    ensures
        interval_steps(0, n, k) == k,
    decreases k,
{
    if k > 0 {
        lemma_steps_below(n, (k - 1) as nat);
    }
}

/// Whether `pcs` holds `pc`.
fn contains_pc(pcs: &Vec<u64>, pc: u64) -> (r: bool)
    ensures
        r == pcs@.contains(pc),
{
    let mut i: usize = 0;
    while i < pcs.len()
        invariant
            i <= pcs.len(),
            forall|j: int| 0 <= j < i ==> pcs@[j] != pc,
        decreases pcs.len() - i,
    {
        if pcs[i] == pc {
            return true;
        }
        i += 1;
    }
    false
}

/// The outcome of comparing one TB run on both sides.
#[derive(Clone, Debug)]
pub struct StateComparison {
    pub pc: u64,
    pub matches: bool,
    pub diffs: Vec<String>,
    pub tcg_mem_writes: Vec<MemWrite>,
    pub qemu_mem_writes: Vec<MemWrite>,
    pub exec_time_tcg: ExecTime,
    pub exec_time_qemu: ExecTime,
}

impl StateComparison {
    /// The states matched and the memory writes agree.
    pub open spec fn is_match_spec(&self) -> bool {
        self.matches && self.tcg_mem_writes@ == self.qemu_mem_writes@
    }

    /// A match at `pc` with no differences, no writes and no times.
    pub fn new(pc: u64) -> (c: Self)
        ensures
            c.pc == pc,
            c.matches,
            c.diffs@.len() == 0,
            c.tcg_mem_writes@.len() == 0,
            c.qemu_mem_writes@.len() == 0,
            c.exec_time_tcg.nanos == 0,
            c.exec_time_qemu.nanos == 0,
    {
        StateComparison {
            pc,
            matches: true,
            diffs: Vec::new(),
            tcg_mem_writes: Vec::new(),
            qemu_mem_writes: Vec::new(),
            exec_time_tcg: ExecTime::zero(),
            exec_time_qemu: ExecTime::zero(),
        }
    }

    /// Sets the differences; the states match exactly when there are none.
    pub fn with_diffs(self, diffs: Vec<String>) -> (c: Self)
        ensures
            c == (StateComparison { matches: diffs@.len() == 0, diffs, ..self }),
    {
        let mut s = self;
        s.matches = diffs.len() == 0;
        s.diffs = diffs;
        s
    }

    pub fn with_mem_writes(self, tcg_writes: Vec<MemWrite>, qemu_writes: Vec<MemWrite>) -> (c:
        Self)
        ensures
            c == (StateComparison {
                tcg_mem_writes: tcg_writes,
                qemu_mem_writes: qemu_writes,
                ..self
            }),
    {
        let mut s = self;
        s.tcg_mem_writes = tcg_writes;
        s.qemu_mem_writes = qemu_writes;
        s
    }

    pub fn with_exec_times(self, tcg_time: ExecTime, qemu_time: ExecTime) -> (c: Self)
        ensures
            c == (StateComparison { exec_time_tcg: tcg_time, exec_time_qemu: qemu_time, ..self }),
    {
        let mut s = self;
        s.exec_time_tcg = tcg_time;
        s.exec_time_qemu = qemu_time;
        s
    }

    /// The states matched and the memory writes agree.
    pub fn is_match(&self) -> (r: bool)
        ensures
            r == self.is_match_spec(),
    {
        self.matches && mem_writes_equal(&self.tcg_mem_writes, &self.qemu_mem_writes)
    }

    /// A copy of the comparison.
    pub fn duplicate(&self) -> (r: Self)
        ensures
            same_comparison(r, *self),
    {
        StateComparison {
            pc: self.pc,
            matches: self.matches,
            diffs: copy_strings(&self.diffs),
            tcg_mem_writes: copy_mem_writes(&self.tcg_mem_writes),
            qemu_mem_writes: copy_mem_writes(&self.qemu_mem_writes),
            exec_time_tcg: self.exec_time_tcg,
            exec_time_qemu: self.exec_time_qemu,
        }
    }
}

/// Two comparisons agree in every field.
pub open spec fn same_comparison(a: StateComparison, b: StateComparison) -> bool {
    &&& a.pc == b.pc
    &&& a.matches == b.matches
    &&& a.diffs@ == b.diffs@
    &&& a.tcg_mem_writes@ == b.tcg_mem_writes@
    &&& a.qemu_mem_writes@ == b.qemu_mem_writes@
    &&& a.exec_time_tcg == b.exec_time_tcg
    &&& a.exec_time_qemu == b.exec_time_qemu
}

/// Statistics of a differential test run.
#[derive(Clone, Debug)]
pub struct ExecutionStats {
    pub total_tbs: u64,
    pub matched_tbs: u64,
    pub mismatched_tbs: u64,
    pub total_exec_time_tcg: ExecTime,
    pub total_exec_time_qemu: ExecTime,
    pub sync_count: u64,
    pub mismatch_details: Vec<StateComparison>,
}

impl ExecutionStats {
    /// No TBs, no time, no synchronizations, no mismatches.
    pub open spec fn is_empty(&self) -> bool {
        &&& self.total_tbs == 0 && self.matched_tbs == 0 && self.mismatched_tbs == 0
        &&& self.total_exec_time_tcg.nanos == 0 && self.total_exec_time_qemu.nanos == 0
        &&& self.sync_count == 0 && self.mismatch_details@.len() == 0
    }

    /// Counters that one more TB cannot overflow, and totals that a
    /// `Duration` can hold.
    pub open spec fn can_record_tb(&self) -> bool {
        &&& self.total_tbs < u64::MAX
        &&& self.matched_tbs < u64::MAX
        &&& self.mismatched_tbs < u64::MAX
        &&& self.total_exec_time_tcg.nanos <= MAX_TIME_NANOS
        &&& self.total_exec_time_qemu.nanos <= MAX_TIME_NANOS
    }

    pub fn new() -> (s: Self)
        ensures
            s.is_empty(),
    {
        ExecutionStats {
            total_tbs: 0,
            matched_tbs: 0,
            mismatched_tbs: 0,
            total_exec_time_tcg: ExecTime::zero(),
            total_exec_time_qemu: ExecTime::zero(),
            sync_count: 0,
            mismatch_details: Vec::new(),
        }
    }

    /// Counts one compared TB: its times are added to the totals, and a
    /// mismatch is kept in the details.
    pub fn record_tb(&mut self, comparison: &StateComparison)
        requires
            old(self).can_record_tb(),
        ensures
            record_tb_spec(*old(self), *final(self), *comparison),
    {
        self.total_tbs += 1;
        self.total_exec_time_tcg = self.total_exec_time_tcg.add(comparison.exec_time_tcg);
        self.total_exec_time_qemu = self.total_exec_time_qemu.add(comparison.exec_time_qemu);
        if comparison.is_match() {
            self.matched_tbs += 1;
        } else {
            self.mismatched_tbs += 1;
            self.mismatch_details.push(comparison.duplicate());
            assert(self.mismatch_details@.drop_last() =~= old(self).mismatch_details@);
        }
    }

    pub fn record_sync(&mut self)
        requires
            old(self).sync_count < u64::MAX,
        ensures
            final(self).sync_count == old(self).sync_count + 1,
            final(self).total_tbs == old(self).total_tbs,
            final(self).matched_tbs == old(self).matched_tbs,
            final(self).mismatched_tbs == old(self).mismatched_tbs,
            final(self).total_exec_time_tcg == old(self).total_exec_time_tcg,
            final(self).total_exec_time_qemu == old(self).total_exec_time_qemu,
            final(self).mismatch_details@ == old(self).mismatch_details@,
    {
        self.sync_count += 1;
    }

    /// Mean translator time per TB; the count is truncated to 32 bits as
    /// the divisor.
    pub fn avg_exec_time_tcg(&self) -> (r: ExecTime)
        requires
            self.total_tbs > 0 ==> self.total_tbs % 0x1_0000_0000 != 0,
        ensures
            r.nanos == if self.total_tbs == 0 {
                0
            } else {
                self.total_exec_time_tcg.nanos / (self.total_tbs % 0x1_0000_0000) as u128
            },
    {
        if self.total_tbs == 0 {
            ExecTime::zero()
        } else {
            let n = self.total_tbs;
            assert(n as u32 == n % 0x1_0000_0000) by (bit_vector);
            self.total_exec_time_tcg.div(n as u32)
        }
    }

    /// Mean QEMU time per TB; the count is truncated to 32 bits as the
    /// divisor.
    pub fn avg_exec_time_qemu(&self) -> (r: ExecTime)
        requires
            self.total_tbs > 0 ==> self.total_tbs % 0x1_0000_0000 != 0,
        ensures
            r.nanos == if self.total_tbs == 0 {
                0
            } else {
                self.total_exec_time_qemu.nanos / (self.total_tbs % 0x1_0000_0000) as u128
            },
    {
        if self.total_tbs == 0 {
            ExecTime::zero()
        } else {
            let n = self.total_tbs;
            assert(n as u32 == n % 0x1_0000_0000) by (bit_vector);
            self.total_exec_time_qemu.div(n as u32)
        }
    }
}

/// Two statistics agree in every field.
pub open spec fn same_stats(a: ExecutionStats, b: ExecutionStats) -> bool {
    &&& a.total_tbs == b.total_tbs
    &&& a.matched_tbs == b.matched_tbs
    &&& a.mismatched_tbs == b.mismatched_tbs
    &&& a.total_exec_time_tcg == b.total_exec_time_tcg
    &&& a.total_exec_time_qemu == b.total_exec_time_qemu
    &&& a.sync_count == b.sync_count
    &&& a.mismatch_details@.len() == b.mismatch_details@.len()
    &&& forall|i: int|
        0 <= i < a.mismatch_details@.len() ==> #[trigger] same_comparison(
            a.mismatch_details@[i],
            b.mismatch_details@[i],
        )
}

impl ExecutionStats {
    /// A copy of the statistics.
    pub fn duplicate(&self) -> (r: Self)
        ensures
            same_stats(r, *self),
    {
        let mut details: Vec<StateComparison> = Vec::new();
        let mut i: usize = 0;
        while i < self.mismatch_details.len()
            invariant
                i <= self.mismatch_details@.len(),
                details@.len() == i,
                forall|j: int|
                    0 <= j < i ==> #[trigger] same_comparison(
                        details@[j],
                        self.mismatch_details@[j],
                    ),
            decreases self.mismatch_details.len() - i,
        {
            details.push(self.mismatch_details[i].duplicate());
            i += 1;
        }
        ExecutionStats {
            total_tbs: self.total_tbs,
            matched_tbs: self.matched_tbs,
            mismatched_tbs: self.mismatched_tbs,
            total_exec_time_tcg: self.total_exec_time_tcg,
            total_exec_time_qemu: self.total_exec_time_qemu,
            sync_count: self.sync_count,
            mismatch_details: details,
        }
    }
}

impl Default for ExecutionStats {
    fn default() -> (s: Self)
        ensures
            s.is_empty(),
    {
        Self::new()
    }
}

/// `new` is `old` with one more compared TB counted.
pub open spec fn record_tb_spec(old: ExecutionStats, new: ExecutionStats, c: StateComparison) -> bool {
    &&& new.total_tbs == old.total_tbs + 1
    &&& new.total_exec_time_tcg == old.total_exec_time_tcg.add_spec(c.exec_time_tcg)
    &&& new.total_exec_time_qemu == old.total_exec_time_qemu.add_spec(c.exec_time_qemu)
    &&& new.sync_count == old.sync_count
    &&& if c.is_match_spec() {
        &&& new.matched_tbs == old.matched_tbs + 1
        &&& new.mismatched_tbs == old.mismatched_tbs
        &&& new.mismatch_details@ == old.mismatch_details@
    } else {
        &&& new.matched_tbs == old.matched_tbs
        &&& new.mismatched_tbs == old.mismatched_tbs + 1
        &&& new.mismatch_details@.len() == old.mismatch_details@.len() + 1
        &&& new.mismatch_details@.drop_last() == old.mismatch_details@
        &&& same_comparison(new.mismatch_details@.last(), c)
    }
}

/// Every TB counted is either a match or a mismatch, and each mismatch is
/// kept: recording a TB keeps `matched + mismatched == total` and
/// `details == mismatched`.
pub proof fn law_stats_balance(old: ExecutionStats, new: ExecutionStats, c: StateComparison)
    requires
        record_tb_spec(old, new, c),
        old.matched_tbs + old.mismatched_tbs == old.total_tbs,
        old.mismatch_details@.len() == old.mismatched_tbs,
    ensures
        new.matched_tbs + new.mismatched_tbs == new.total_tbs,
        new.mismatch_details@.len() == new.mismatched_tbs,
{
}

/// The comparison of a translator result with a QEMU result for the same TB.
pub open spec fn compare_results_spec(tcg: QemuExecResult, qemu: QemuExecResult, c: StateComparison) -> bool {
    &&& c.pc == tcg.tb_pc
    &&& texts(c.diffs@) == tcg.cpu_state.diff_spec(&qemu.cpu_state)
    &&& c.matches == (tcg.cpu_state.diff_spec(&qemu.cpu_state).len() == 0)
    &&& c.tcg_mem_writes@ == tcg.mem_writes@
    &&& c.qemu_mem_writes@ == qemu.mem_writes@
    &&& c.exec_time_tcg == tcg.exec_time
    &&& c.exec_time_qemu == qemu.exec_time
}

/// Compares a translator result with a QEMU result.
pub fn compare_results(tcg_result: &QemuExecResult, qemu_result: &QemuExecResult) -> (c:
    StateComparison)
    ensures
        compare_results_spec(*tcg_result, *qemu_result, c),
{
    let diffs = tcg_result.cpu_state.diff(&qemu_result.cpu_state);
    StateComparison::new(tcg_result.tb_pc).with_diffs(diffs).with_mem_writes(
        copy_mem_writes(&tcg_result.mem_writes),
        copy_mem_writes(&qemu_result.mem_writes),
    ).with_exec_times(tcg_result.exec_time, qemu_result.exec_time)
}

/// The text `Debug` gives for the duration of `secs` seconds and `nanos`
/// nanoseconds.
pub uninterp spec fn duration_debug_text(secs: u64, nanos: u32) -> Seq<char>;

/// `format!("{:?}", Duration::new(secs, nanos))`: the text is named by
/// `duration_debug_text`.
#[verifier::external_body]
fn duration_debug(secs: u64, nanos: u32) -> (r: String)
    requires
        nanos < 1_000_000_000,
    ensures
        r@ == duration_debug_text(secs, nanos),
{
    format!("{:?}", std::time::Duration::new(secs, nanos))
}

/// The `Debug` text of a span.
pub open spec fn exec_time_text(t: ExecTime) -> Seq<char> {
    duration_debug_text((t.nanos / 1_000_000_000) as u64, (t.nanos % 1_000_000_000) as u32)
}

/// Each difference on its own line, indented as a list item.
pub open spec fn diff_list_text(diffs: Seq<Seq<char>>) -> Seq<char>
    decreases diffs.len(),
{
    if diffs.len() == 0 {
        Seq::empty()
    } else {
        diff_list_text(diffs.drop_last()) + seq![' ', ' ', '-', ' '] + diffs.last() + seq!['\n']
    }
}

/// The report of a comparison: PC, whether it matched, the differences
/// (when there are any) and both execution times.
pub open spec fn comparison_text(c: StateComparison) -> Seq<char> {
    seq!['P', 'C', ':', ' ', '0', 'x'] + hex_text(c.pc as nat, 16) + seq!['\n'] + seq![
        'M', 'a', 't', 'c', 'h', ':', ' ',
    ] + bool_text(c.is_match_spec()) + seq!['\n'] + (if c.diffs@.len() > 0 {
        seq!['D', 'i', 'f', 'f', 'e', 'r', 'e', 'n', 'c', 'e', 's', ':', '\n'] + diff_list_text(
            texts(c.diffs@),
        )
    } else {
        Seq::empty()
    }) + seq!['T', 'C', 'G', ' ', 'e', 'x', 'e', 'c', ' ', 't', 'i', 'm', 'e', ':', ' ']
        + exec_time_text(c.exec_time_tcg) + seq!['\n'] + seq![
        'Q', 'E', 'M', 'U', ' ', 'e', 'x', 'e', 'c', ' ', 't', 'i', 'm', 'e', ':', ' ',
    ] + exec_time_text(c.exec_time_qemu) + seq!['\n']
}

/// Appends the `Debug` text of a span.
fn push_exec_time(s: &mut String, t: ExecTime)
    requires
        t.nanos <= MAX_TIME_NANOS,
    ensures
        final(s)@ == old(s)@ + exec_time_text(t),
{
    let secs = (t.nanos / 1_000_000_000) as u64;
    let nanos = (t.nanos % 1_000_000_000) as u32;
    let text = duration_debug(secs, nanos);
    s.append(text.as_str());
}

/// Renders a comparison for display.
pub fn format_comparison(comparison: &StateComparison) -> (r: String)
    requires
        comparison.exec_time_tcg.nanos <= MAX_TIME_NANOS,
        comparison.exec_time_qemu.nanos <= MAX_TIME_NANOS,
    ensures
        r@ == comparison_text(*comparison),
{
    proof {
        reveal_strlit("PC: 0x");
        reveal_strlit("\n");
        reveal_strlit("Match: ");
        reveal_strlit("Differences:\n");
        reveal_strlit("  - ");
        reveal_strlit("TCG exec time: ");
        reveal_strlit("QEMU exec time: ");
        assert("PC: 0x"@ == seq!['P', 'C', ':', ' ', '0', 'x']);
        assert("\n"@ == seq!['\n']);
        assert("Match: "@ == seq!['M', 'a', 't', 'c', 'h', ':', ' ']);
        assert("Differences:\n"@ == seq![
            'D', 'i', 'f', 'f', 'e', 'r', 'e', 'n', 'c', 'e', 's', ':', '\n',
        ]);
        assert("  - "@ == seq![' ', ' ', '-', ' ']);
        assert("TCG exec time: "@ == seq![
            'T', 'C', 'G', ' ', 'e', 'x', 'e', 'c', ' ', 't', 'i', 'm', 'e', ':', ' ',
        ]);
        assert("QEMU exec time: "@ == seq![
            'Q', 'E', 'M', 'U', ' ', 'e', 'x', 'e', 'c', ' ', 't', 'i', 'm', 'e', ':', ' ',
        ]);
    }
    let mut out = String::from_str("PC: 0x");
    push_hex(&mut out, comparison.pc as u128, 16);
    out.append("\n");
    out.append("Match: ");
    push_bool(&mut out, comparison.is_match());
    out.append("\n");
    let ghost head = out@;
    if comparison.diffs.len() > 0 {
        out.append("Differences:\n");
        let ghost start = out@;
        let mut i: usize = 0;
        while i < comparison.diffs.len()
            invariant
                i <= comparison.diffs@.len(),
                out@ == start + diff_list_text(texts(comparison.diffs@.subrange(0, i as int))),
                "  - "@ == seq![' ', ' ', '-', ' '],
                "\n"@ == seq!['\n'],
            decreases comparison.diffs.len() - i,
        {
            out.append("  - ");
            out.append(comparison.diffs[i].as_str());
            out.append("\n");
            proof {
                let d = texts(comparison.diffs@.subrange(0, i + 1));
                assert(d.drop_last() =~= texts(comparison.diffs@.subrange(0, i as int)));
                assert(d.last() == comparison.diffs@[i as int]@);
            }
            i += 1;
        }
        assert(comparison.diffs@.subrange(0, comparison.diffs@.len() as int) =~= comparison.diffs@);
    }
    let ghost mid = out@;
    assert(mid == head + (if comparison.diffs@.len() > 0 {
        seq!['D', 'i', 'f', 'f', 'e', 'r', 'e', 'n', 'c', 'e', 's', ':', '\n'] + diff_list_text(
            texts(comparison.diffs@),
        )
    } else {
        Seq::empty()
    }));
    out.append("TCG exec time: ");
    push_exec_time(&mut out, comparison.exec_time_tcg);
    out.append("\n");
    out.append("QEMU exec time: ");
    push_exec_time(&mut out, comparison.exec_time_qemu);
    out.append("\n");
    assert(out@ =~= comparison_text(*comparison));
    out
}

/// The report line for a difference in the number of writes.
pub open spec fn count_mismatch_text(a: nat, b: nat) -> Seq<char> {
    seq![
        'W', 'r', 'i', 't', 'e', ' ', 'c', 'o', 'u', 'n', 't', ' ', 'm', 'i', 's', 'm', 'a', 't',
        'c', 'h', ':', ' ',
    ] + dec_text(a) + seq![' ', 'v', 's', ' '] + dec_text(b)
}

/// The report line for the `i`-th write differing.
pub open spec fn write_mismatch_text(i: nat, a: MemWrite, b: MemWrite) -> Seq<char> {
    seq!['W', 'r', 'i', 't', 'e', ' '] + dec_text(i) + seq![':', ' ', 'T', 'C', 'G', '(']
        + a.debug_text() + seq![')', ' ', 'v', 's', ' ', 'Q', 'E', 'M', 'U', '('] + b.debug_text()
        + seq![')']
}

/// Report lines for the differing writes among the first `n` of both lists.
pub open spec fn write_mismatches(a: Seq<MemWrite>, b: Seq<MemWrite>, n: nat) -> Seq<Seq<char>>
    decreases n,
{
    if n == 0 {
        Seq::empty()
    } else {
        let rest = write_mismatches(a, b, (n - 1) as nat);
        let i = n - 1;
        if a[i] != b[i] {
            rest.push(write_mismatch_text(i as nat, a[i], b[i]))
        } else {
            rest
        }
    }
}

/// The differences between two lists of memory writes: the counts when they
/// differ, then each position of the shorter length where the writes differ.
pub open spec fn compare_mem_writes_spec(a: Seq<MemWrite>, b: Seq<MemWrite>) -> Seq<Seq<char>> {
    (if a.len() != b.len() {
        seq![count_mismatch_text(a.len(), b.len())]
    } else {
        Seq::empty()
    }) + write_mismatches(a, b, if a.len() < b.len() { a.len() } else { b.len() })
}

/// Compares two lists of memory writes position by position.
pub fn compare_mem_writes(tcg_writes: &[MemWrite], qemu_writes: &[MemWrite]) -> (r: Vec<String>)
    ensures
        texts(r@) == compare_mem_writes_spec(tcg_writes@, qemu_writes@),
{
    proof {
        reveal_strlit("Write count mismatch: ");
        reveal_strlit(" vs ");
        assert("Write count mismatch: "@ == seq![
            'W', 'r', 'i', 't', 'e', ' ', 'c', 'o', 'u', 'n', 't', ' ', 'm', 'i', 's', 'm', 'a',
            't', 'c', 'h', ':', ' ',
        ]);
        assert(" vs "@ == seq![' ', 'v', 's', ' ']);
    }
    let mut diffs: Vec<String> = Vec::new();
    if tcg_writes.len() != qemu_writes.len() {
        let mut s = String::from_str("Write count mismatch: ");
        push_dec(&mut s, tcg_writes.len() as u128);
        s.append(" vs ");
        push_dec(&mut s, qemu_writes.len() as u128);
        diffs.push(s);
        assert(texts(diffs@) =~= seq![count_mismatch_text(
            tcg_writes@.len(),
            qemu_writes@.len(),
        )]);
    } else {
        assert(texts(diffs@) =~= Seq::<Seq<char>>::empty());
    }
    let ghost head = texts(diffs@);
    let min_len = if tcg_writes.len() < qemu_writes.len() {
        tcg_writes.len()
    } else {
        qemu_writes.len()
    };
    let mut i: usize = 0;
    while i < min_len
        invariant
            i <= min_len,
            min_len <= tcg_writes@.len(),
            min_len <= qemu_writes@.len(),
            texts(diffs@) == head + write_mismatches(tcg_writes@, qemu_writes@, i as nat),
        decreases min_len - i,
    {
        let a = tcg_writes[i];
        let b = qemu_writes[i];
        if a != b {
            let line = write_mismatch_line(i, &a, &b);
            let ghost prev = texts(diffs@);
            diffs.push(line);
            assert(texts(diffs@) =~= prev.push(line@));
            assert(head + write_mismatches(tcg_writes@, qemu_writes@, (i + 1) as nat) =~= (head
                + write_mismatches(tcg_writes@, qemu_writes@, i as nat)).push(line@));
        }
        i += 1;
    }
    diffs
}

/// Renders the report line for the `i`-th write differing.
fn write_mismatch_line(i: usize, a: &MemWrite, b: &MemWrite) -> (r: String)
    ensures
        r@ == write_mismatch_text(i as nat, *a, *b),
{
    proof {
        reveal_strlit("Write ");
        reveal_strlit(": TCG(");
        reveal_strlit(") vs QEMU(");
        reveal_strlit(")");
        assert("Write "@ == seq!['W', 'r', 'i', 't', 'e', ' ']);
        assert(": TCG("@ == seq![':', ' ', 'T', 'C', 'G', '(']);
        assert(") vs QEMU("@ == seq![')', ' ', 'v', 's', ' ', 'Q', 'E', 'M', 'U', '(']);
        assert(")"@ == seq![')']);
    }
    let mut s = String::from_str("Write ");
    push_dec(&mut s, i as u128);
    s.append(": TCG(");
    a.push_debug_text(&mut s);
    s.append(") vs QEMU(");
    b.push_debug_text(&mut s);
    s.append(")");
    assert(s@ =~= write_mismatch_text(i as nat, *a, *b));
    s
}

/// Identical write lists produce no difference.
pub proof fn law_compare_mem_writes_same(a: Seq<MemWrite>)
    ensures
        compare_mem_writes_spec(a, a) == Seq::<Seq<char>>::empty(),
{
    lemma_write_mismatches_same(a, a.len());
    assert(compare_mem_writes_spec(a, a) =~= Seq::<Seq<char>>::empty());
}

proof fn lemma_write_mismatches_same(a: Seq<MemWrite>, n: nat)
    ensures
        write_mismatches(a, a, n) == Seq::<Seq<char>>::empty(),
    decreases n,
{
    if n > 0 {
        lemma_write_mismatches_same(a, (n - 1) as nat);
    }
}

} // verus!
