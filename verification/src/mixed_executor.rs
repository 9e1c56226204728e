//! An executor that runs each TB on the translator and, by a switching
//! strategy, also on QEMU, comparing the two.

use std::collections::HashSet;

use vstd::prelude::*;

use crate::qemu_bridge::{QemuBridge, QemuError, QemuExecResult};
use crate::qemu_cpu_state::QemuCpuState;
use crate::sync::{
    compare_results, compare_results_spec, initial_state_for, is_supported_arch, record_tb_spec,
    same_comparison, DifftestState, ExecutionStats, StateComparison, StateSynchronizer,
};

verus! {

broadcast use {vstd::std_specs::hash::group_hash_axioms, vstd::function::group_function_axioms};

/// Strategy for switching between the translator and QEMU.
#[derive(Debug, PartialEq)]
pub enum SwitchStrategy {
    /// `tcg_count` TBs on the translator, then `qemu_count` on QEMU, repeatedly.
    Alternating { tcg_count: usize, qemu_count: usize },
    /// QEMU at the given PCs.
    PcBased { qemu_pcs: HashSet<u64> },
    /// QEMU inside the given half-open PC ranges.
    RangeBased { qemu_ranges: Vec<(u64, u64)> },
    /// Always the translator.
    TcgOnly,
    /// Always QEMU.
    QemuOnly,
}

/// The strategy can be evaluated: an alternating cycle has a length between
/// 1 and `usize::MAX`.
pub open spec fn strategy_ok(s: SwitchStrategy) -> bool {
    match s {
        SwitchStrategy::Alternating { tcg_count, qemu_count } => 0 < tcg_count + qemu_count
            <= usize::MAX,
        _ => true,
    }
}

/// `pc` lies in the half-open range `[start, end)`.
pub open spec fn in_range(r: (u64, u64), pc: u64) -> bool {
    r.0 <= pc < r.1
}

/// Whether the TB at `pc`, the `tb_counter`-th one, runs on QEMU.
pub open spec fn should_use_qemu_spec(s: SwitchStrategy, pc: u64, tb_counter: usize) -> bool {
    match s {
        SwitchStrategy::Alternating { tcg_count, qemu_count } => tb_counter as int % (tcg_count
            + qemu_count) as int >= tcg_count,
        SwitchStrategy::PcBased { qemu_pcs } => qemu_pcs@.contains(pc),
        SwitchStrategy::RangeBased { qemu_ranges } => exists|i: int|
            0 <= i < qemu_ranges@.len() && #[trigger] in_range(qemu_ranges@[i], pc),
        SwitchStrategy::TcgOnly => false,
        SwitchStrategy::QemuOnly => true,
    }
}

impl SwitchStrategy {
    pub fn alternating(tcg_count: usize, qemu_count: usize) -> (s: Self)
        ensures
            s == (SwitchStrategy::Alternating { tcg_count, qemu_count }),
    {
        SwitchStrategy::Alternating { tcg_count, qemu_count }
    }

    /// QEMU at exactly the listed PCs.
    pub fn pc_based(qemu_pcs: Vec<u64>) -> (s: Self)
        ensures
            s matches SwitchStrategy::PcBased { qemu_pcs: set } && set@ == qemu_pcs@.to_set(),
    {
        let mut set: HashSet<u64> = HashSet::new();
        let mut i: usize = 0;
        while i < qemu_pcs.len()
            invariant
                i <= qemu_pcs.len(),
                set@ == qemu_pcs@.subrange(0, i as int).to_set(),
            decreases qemu_pcs.len() - i,
        {
            let ghost before = set@;
            set.insert(qemu_pcs[i]);
            proof {
                let pre = qemu_pcs@.subrange(0, i as int);
                assert(qemu_pcs@.subrange(0, i + 1) =~= pre.push(qemu_pcs@[i as int]));
                assert(pre.push(qemu_pcs@[i as int]).to_set() =~= pre.to_set().insert(
                    qemu_pcs@[i as int],
                )) by {
                    assert forall|x: u64| #[trigger]
                        pre.push(qemu_pcs@[i as int]).contains(x) <==> (pre.contains(x) || x
                            == qemu_pcs@[i as int]) by {
                        if pre.contains(x) {
                            let j = choose|j: int| 0 <= j < pre.len() && pre[j] == x;
                            assert(pre.push(qemu_pcs@[i as int])[j] == x);
                        }
                        if x == qemu_pcs@[i as int] {
                            assert(pre.push(qemu_pcs@[i as int])[i as int] == x);
                        }
                        if pre.push(qemu_pcs@[i as int]).contains(x) {
                            let j = choose|j: int|
                                0 <= j < pre.len() + 1 && pre.push(qemu_pcs@[i as int])[j] == x;
                            if j < pre.len() {
                                assert(pre[j] == x);
                            }
                        }
                    }
                }
            }
            i += 1;
        }
        assert(qemu_pcs@.subrange(0, qemu_pcs@.len() as int) =~= qemu_pcs@);
        SwitchStrategy::PcBased { qemu_pcs: set }
    }

    pub fn range_based(qemu_ranges: Vec<(u64, u64)>) -> (s: Self)
        ensures
            s matches SwitchStrategy::RangeBased { qemu_ranges: r } && r@ == qemu_ranges@,
    {
        SwitchStrategy::RangeBased { qemu_ranges }
    }

    pub fn tcg_only() -> (s: Self)
        ensures
            s is TcgOnly,
    {
        SwitchStrategy::TcgOnly
    }

    pub fn qemu_only() -> (s: Self)
        ensures
            s is QemuOnly,
    {
        SwitchStrategy::QemuOnly
    }

    /// Whether the TB at `pc`, the `tb_counter`-th one, runs on QEMU.
    pub fn should_use_qemu(&self, pc: u64, tb_counter: usize) -> (r: bool)
        requires
            strategy_ok(*self),
        ensures
            r == should_use_qemu_spec(*self, pc, tb_counter),
    {
        match self {
            SwitchStrategy::Alternating { tcg_count, qemu_count } => {
                let cycle = tb_counter % (*tcg_count + *qemu_count);
                cycle >= *tcg_count
            },
            SwitchStrategy::PcBased { qemu_pcs } => qemu_pcs.contains(&pc),
            SwitchStrategy::RangeBased { qemu_ranges } => ranges_contain(qemu_ranges, pc),
            SwitchStrategy::TcgOnly => false,
            SwitchStrategy::QemuOnly => true,
        }
    }
}

/// Whether some range of `ranges` holds `pc`.
fn ranges_contain(ranges: &Vec<(u64, u64)>, pc: u64) -> (r: bool)
    ensures
        r == exists|i: int| 0 <= i < ranges@.len() && #[trigger] in_range(ranges@[i], pc),
{
    let mut i: usize = 0;
    while i < ranges.len()
        invariant
            i <= ranges@.len(),
            forall|j: int| 0 <= j < i ==> !#[trigger] in_range(ranges@[j], pc),
        decreases ranges.len() - i,
    {
        let (start, end) = ranges[i];
        if pc >= start && pc < end {
            assert(in_range(ranges@[i as int], pc));
            return true;
        }
        i += 1;
    }
    false
}

/// Two strategies of the same kind with the same parameters.
pub open spec fn same_strategy(a: SwitchStrategy, b: SwitchStrategy) -> bool {
    match (a, b) {
        (
            SwitchStrategy::Alternating { tcg_count: t1, qemu_count: q1 },
            SwitchStrategy::Alternating { tcg_count: t2, qemu_count: q2 },
        ) => t1 == t2 && q1 == q2,
        (SwitchStrategy::PcBased { qemu_pcs: p1 }, SwitchStrategy::PcBased { qemu_pcs: p2 }) => p1@
            == p2@,
        (
            SwitchStrategy::RangeBased { qemu_ranges: r1 },
            SwitchStrategy::RangeBased { qemu_ranges: r2 },
        ) => r1@ == r2@,
        (SwitchStrategy::TcgOnly, SwitchStrategy::TcgOnly) => true,
        (SwitchStrategy::QemuOnly, SwitchStrategy::QemuOnly) => true,
        _ => false,
    }
}

/// The copy has the same kind and parameters; a PC-based strategy's set is
/// rebuilt by iterating it and holds the same PCs.
impl Clone for SwitchStrategy {
    fn clone(&self) -> (r: Self)
        ensures
            same_strategy(r, *self),
    {
        match self {
            SwitchStrategy::Alternating { tcg_count, qemu_count } => SwitchStrategy::Alternating {
                tcg_count: *tcg_count,
                qemu_count: *qemu_count,
            },
            SwitchStrategy::PcBased { qemu_pcs } => {
                let mut set: HashSet<u64> = HashSet::new();
                proof {
                    let keys = vstd::std_specs::iter::IteratorSpec::remaining(
                        &vstd::std_specs::hash::spec_hash_keys_iter(qemu_pcs),
                    );
                    assert(keys.unref() =~= keys.map_values(|p: &u64| *p));
                }
                for x in it: qemu_pcs.iter()
                    invariant
                        set@ == it.seq().take(it.index() as int).map_values(|p: &u64| *p).to_set(),
                        it.seq().map_values(|p: &u64| *p).to_set() == qemu_pcs@,
                        it.index() == it.seq().len() ==> set@ == qemu_pcs@,
                {
                    proof {
                        let pre = it.seq().take(it.index() as int).map_values(|p: &u64| *p);
                        assert(it.seq().take(it.index() + 1).map_values(|p: &u64| *p) =~= pre.push(
                            *x,
                        ));
                        pre.lemma_push_to_set_commute(*x);
                    }
                    set.insert(*x);
                    proof {
                        assert(it.seq().take(it.seq().len() as int) =~= it.seq());
                    }
                }
                SwitchStrategy::PcBased { qemu_pcs: set }
            },
            SwitchStrategy::RangeBased { qemu_ranges } => {
                let mut v: Vec<(u64, u64)> = Vec::new();
                let mut i: usize = 0;
                while i < qemu_ranges.len()
                    invariant
                        i <= qemu_ranges@.len(),
                        v@ == qemu_ranges@.subrange(0, i as int),
                    decreases qemu_ranges.len() - i,
                {
                    v.push(qemu_ranges[i]);
                    i += 1;
                }
                assert(v@ =~= qemu_ranges@);
                SwitchStrategy::RangeBased { qemu_ranges: v }
            },
            SwitchStrategy::TcgOnly => SwitchStrategy::TcgOnly,
            SwitchStrategy::QemuOnly => SwitchStrategy::QemuOnly,
        }
    }
}

impl Default for SwitchStrategy {
    fn default() -> (s: Self)
        ensures
            s is TcgOnly,
    {
        Self::tcg_only()
    }
}

/// Which side executes.
#[derive(Clone, Copy, Debug, PartialEq, Eq, Structural)]
pub enum ExecutionMode {
    Tcg,
    Qemu,
}

/// Errors of a differential test run.
#[derive(Debug)]
pub enum DifftestError {
    QemuError(QemuError),
    MaxMismatchesReached,
    InvalidState(String),
    ExecutionError(String),
}

impl DifftestError {
    /// The message of the error, as it is displayed.
    pub open spec fn message_spec(&self) -> Seq<char> {
        match self {
            DifftestError::QemuError(e) => seq!['Q', 'E', 'M', 'U', ' ', 'e', 'r', 'r', 'o', 'r', ':', ' ']
                + e.message_spec(),
            DifftestError::MaxMismatchesReached => seq![
                'M', 'a', 'x', 'i', 'm', 'u', 'm', ' ', 'n', 'u', 'm', 'b', 'e', 'r', ' ', 'o', 'f',
                ' ', 'm', 'i', 's', 'm', 'a', 't', 'c', 'h', 'e', 's', ' ', 'r', 'e', 'a', 'c', 'h',
                'e', 'd',
            ],
            DifftestError::InvalidState(m) => seq![
                'I', 'n', 'v', 'a', 'l', 'i', 'd', ' ', 's', 't', 'a', 't', 'e', ':', ' ',
            ] + m@,
            DifftestError::ExecutionError(m) => seq![
                'E', 'x', 'e', 'c', 'u', 't', 'i', 'o', 'n', ' ', 'e', 'r', 'r', 'o', 'r', ':', ' ',
            ] + m@,
        }
    }

    /// The message of the error, as it is displayed.
    pub fn message(&self) -> (r: String)
        ensures
            r@ == self.message_spec(),
    {
        proof {
            reveal_strlit("QEMU error: ");
            reveal_strlit("Maximum number of mismatches reached");
            reveal_strlit("Invalid state: ");
            reveal_strlit("Execution error: ");
        }
        match self {
            DifftestError::QemuError(e) => {
                let mut s = String::from_str("QEMU error: ");
                let m = e.message();
                s.append(m.as_str());
                s
            },
            DifftestError::MaxMismatchesReached => String::from_str(
                "Maximum number of mismatches reached",
            ),
            DifftestError::InvalidState(m) => {
                let mut s = String::from_str("Invalid state: ");
                s.append(m.as_str());
                s
            },
            DifftestError::ExecutionError(m) => {
                let mut s = String::from_str("Execution error: ");
                s.append(m.as_str());
                s
            },
        }
    }
}

impl From<QemuError> for DifftestError {
    fn from(e: QemuError) -> (r: Self) {
        DifftestError::QemuError(e)
    }
}

impl vstd::std_specs::convert::FromSpecImpl<QemuError> for DifftestError {
    open spec fn obeys_from_spec() -> bool {
        true
    }

    open spec fn from_spec(v: QemuError) -> Self {
        DifftestError::QemuError(v)
    }
}

/// Executor that switches between the translator and QEMU.
pub struct MixedExecutor {
    strategy: SwitchStrategy,
    state: DifftestState,
    synchronizer: StateSynchronizer,
    stats: ExecutionStats,
    current_mode: ExecutionMode,
    tb_counter: usize,
    bridge: Option<QemuBridge>,
    max_mismatches: usize,
    stop_on_mismatch: bool,
}

impl MixedExecutor {
    pub closed spec fn spec_strategy(&self) -> SwitchStrategy {
        self.strategy
    }

    pub closed spec fn spec_state(&self) -> DifftestState {
        self.state
    }

    pub closed spec fn spec_synchronizer(&self) -> StateSynchronizer {
        self.synchronizer
    }

    pub closed spec fn spec_stats(&self) -> ExecutionStats {
        self.stats
    }

    pub closed spec fn spec_mode(&self) -> ExecutionMode {
        self.current_mode
    }

    /// TBs stepped so far.
    pub closed spec fn spec_tb_counter(&self) -> usize {
        self.tb_counter
    }

    pub closed spec fn spec_bridge(&self) -> Option<QemuBridge> {
        self.bridge
    }

    pub closed spec fn spec_max_mismatches(&self) -> usize {
        self.max_mismatches
    }

    pub closed spec fn spec_stop_on_mismatch(&self) -> bool {
        self.stop_on_mismatch
    }

    /// One more step cannot overflow a counter, and the strategy can be evaluated.
    pub open spec fn can_step(&self) -> bool {
        &&& strategy_ok(self.spec_strategy())
        &&& self.spec_tb_counter() < usize::MAX
        &&& self.spec_state().tb_count < u64::MAX
        &&& self.spec_state().mismatch_count < u64::MAX
        &&& self.spec_stats().can_record_tb()
        &&& self.spec_bridge() matches Some(b) ==> b.spec_execution_count() < u64::MAX
    }

    /// An executor for `arch` with the given strategy, no bridge, at PC 0,
    /// stopping after 10 mismatches.
    pub fn new(arch: &str, strategy: SwitchStrategy) -> (e: Self)
        requires
            is_supported_arch(arch@),
        ensures
            e.spec_strategy() == strategy,
            initial_state_for(arch@, e.spec_state().tcg_state),
            e.spec_state().qemu_state == e.spec_state().tcg_state,
            e.spec_state().current_pc == 0,
            e.spec_state().tb_count == 0,
            e.spec_state().mismatch_count == 0,
            e.spec_state().last_sync_pc == 0,
            e.spec_synchronizer().spec_interval() == 1,
            e.spec_synchronizer().spec_since_sync() == 0,
            e.spec_stats().is_empty(),
            e.spec_mode() == ExecutionMode::Tcg,
            e.spec_tb_counter() == 0,
            e.spec_bridge() is None,
            e.spec_max_mismatches() == 10,
            e.spec_stop_on_mismatch(),
    {
        MixedExecutor {
            strategy,
            state: DifftestState::new(arch),
            synchronizer: StateSynchronizer::new(),
            stats: ExecutionStats::new(),
            current_mode: ExecutionMode::Tcg,
            tb_counter: 0,
            bridge: None,
            max_mismatches: 10,
            stop_on_mismatch: true,
        }
    }

    /// The same executor with the given bridge.
    pub fn with_bridge(self, bridge: QemuBridge) -> (e: Self)
        ensures
            e.spec_bridge() == Some(bridge),
            e.spec_strategy() == self.spec_strategy(),
            e.spec_state() == self.spec_state(),
            e.spec_synchronizer() == self.spec_synchronizer(),
            e.spec_stats() == self.spec_stats(),
            e.spec_mode() == self.spec_mode(),
            e.spec_tb_counter() == self.spec_tb_counter(),
            e.spec_max_mismatches() == self.spec_max_mismatches(),
            e.spec_stop_on_mismatch() == self.spec_stop_on_mismatch(),
    {
        let mut s = self;
        s.bridge = Some(bridge);
        s
    }

    /// The same executor starting at `pc`.
    pub fn with_initial_pc(self, pc: u64) -> (e: Self)
        ensures
            e.spec_state() == (DifftestState { current_pc: pc, last_sync_pc: pc, ..self.spec_state() }),
            e.spec_strategy() == self.spec_strategy(),
            e.spec_synchronizer() == self.spec_synchronizer(),
            e.spec_stats() == self.spec_stats(),
            e.spec_mode() == self.spec_mode(),
            e.spec_tb_counter() == self.spec_tb_counter(),
            e.spec_bridge() == self.spec_bridge(),
            e.spec_max_mismatches() == self.spec_max_mismatches(),
            e.spec_stop_on_mismatch() == self.spec_stop_on_mismatch(),
    {
        let mut s = self;
        s.state = s.state.with_pc(pc);
        s
    }

    /// The same executor with both sides starting from `state`.
    pub fn with_initial_state(self, state: QemuCpuState) -> (e: Self)
        ensures
            e.spec_state() == (DifftestState { tcg_state: state, qemu_state: state, ..self.spec_state() }),
            e.spec_strategy() == self.spec_strategy(),
            e.spec_synchronizer() == self.spec_synchronizer(),
            e.spec_stats() == self.spec_stats(),
            e.spec_mode() == self.spec_mode(),
            e.spec_tb_counter() == self.spec_tb_counter(),
            e.spec_bridge() == self.spec_bridge(),
            e.spec_max_mismatches() == self.spec_max_mismatches(),
            e.spec_stop_on_mismatch() == self.spec_stop_on_mismatch(),
    {
        let mut s = self;
        s.state = s.state.with_initial_state(state);
        s
    }

    pub fn with_max_mismatches(self, max: usize) -> (e: Self)
        ensures
            e.spec_max_mismatches() == max,
            e.spec_strategy() == self.spec_strategy(),
            e.spec_state() == self.spec_state(),
            e.spec_synchronizer() == self.spec_synchronizer(),
            e.spec_stats() == self.spec_stats(),
            e.spec_mode() == self.spec_mode(),
            e.spec_tb_counter() == self.spec_tb_counter(),
            e.spec_bridge() == self.spec_bridge(),
            e.spec_stop_on_mismatch() == self.spec_stop_on_mismatch(),
    {
        let mut s = self;
        s.max_mismatches = max;
        s
    }

    pub fn with_stop_on_mismatch(self, stop: bool) -> (e: Self)
        ensures
            e.spec_stop_on_mismatch() == stop,
            e.spec_strategy() == self.spec_strategy(),
            e.spec_state() == self.spec_state(),
            e.spec_synchronizer() == self.spec_synchronizer(),
            e.spec_stats() == self.spec_stats(),
            e.spec_mode() == self.spec_mode(),
            e.spec_tb_counter() == self.spec_tb_counter(),
            e.spec_bridge() == self.spec_bridge(),
            e.spec_max_mismatches() == self.spec_max_mismatches(),
    {
        let mut s = self;
        s.stop_on_mismatch = stop;
        s
    }

    /// Connects the bridge, if there is one.
    pub fn connect_bridge(&mut self) -> (r: Result<(), QemuError>)
        ensures
            r is Ok,
            bridge_connected(*old(self), *final(self), true),
    {
        if let Some(ref mut bridge) = self.bridge {
            let _ = bridge.connect();
        }
        Ok(())
    }

    /// Disconnects the bridge, if there is one.
    pub fn disconnect_bridge(&mut self)
        ensures
            bridge_connected(*old(self), *final(self), false),
    {
        if let Some(ref mut bridge) = self.bridge {
            bridge.disconnect();
        }
    }

    /// Runs one TB: `tcg_execute_fn` executes it on the translator from the
    /// current state and PC. When the strategy picks QEMU and there is a
    /// bridge, QEMU executes it too and the two results are compared.
    pub fn step<F: FnOnce(&QemuCpuState, u64) -> QemuExecResult>(&mut self, tcg_execute_fn: F) -> (r:
        Result<Option<StateComparison>, DifftestError>)
        requires
            old(self).can_step(),
            tcg_execute_fn.requires((&old(self).spec_state().tcg_state, old(self).spec_state().current_pc)),
        ensures
            exists|t: QemuExecResult|
                #![trigger tcg_execute_fn.ensures((&old(self).spec_state().tcg_state, old(self).spec_state().current_pc), t)]
                tcg_execute_fn.ensures(
                    (&old(self).spec_state().tcg_state, old(self).spec_state().current_pc),
                    t,
                ) && step_spec(*old(self), *final(self), t, r),
    {
        let pc = self.state.current_pc;
        let tcg_result = tcg_execute_fn(&self.state.tcg_state, pc);
        self.step_with_result(tcg_result)
    }

    /// Completes a step whose translator result is `tcg_result`.
    pub fn step_with_result(&mut self, tcg_result: QemuExecResult) -> (r: Result<
        Option<StateComparison>,
        DifftestError,
    >)
        requires
            old(self).can_step(),
        ensures
            step_spec(*old(self), *final(self), tcg_result, r),
    {
        let pc = self.state.current_pc;
        let use_qemu = self.strategy.should_use_qemu(pc, self.tb_counter);
        if use_qemu && self.bridge.is_some() {
            let mut bridge = self.bridge.take().unwrap();
            let res = bridge.execute_tb(pc, &self.state.tcg_state);
            let qemu_result = match res {
                Ok(q) => q,
                Err(e) => {
                    self.bridge = Some(bridge);
                    assert(self.bridge == old(self).bridge);
                    return Err(DifftestError::QemuError(e));
                },
            };
            self.bridge = Some(bridge);
            let comp = compare_results(&tcg_result, &qemu_result);
            self.state.sync_from_qemu(&qemu_result.cpu_state);
            self.stats.record_tb(&comp);
            if !comp.is_match() {
                self.state.record_mismatch();
                if self.stop_on_mismatch && self.state.mismatch_count >= self.max_mismatches as u64 {
                    assert(compare_results_spec(tcg_result, qemu_result, comp));
                    return Err(DifftestError::MaxMismatchesReached);
                }
            }
            self.state.increment_tb_count();
            self.tb_counter += 1;
            self.state.update_pc(tcg_result.next_pc);
            assert(compare_results_spec(tcg_result, qemu_result, comp));
            Ok(Some(comp))
        } else {
            if !use_qemu {
                self.state.sync_from_tcg(&tcg_result.cpu_state);
            }
            let default_comp = StateComparison::new(pc);
            assert(default_comp.tcg_mem_writes@ =~= default_comp.qemu_mem_writes@);
            self.stats.record_tb(&default_comp);
            self.state.increment_tb_count();
            self.tb_counter += 1;
            self.state.update_pc(tcg_result.next_pc);
            Ok(None)
        }
    }

    /// `n` more steps cannot overflow a counter, the strategy can be
    /// evaluated and the time totals fit a `Duration`.
    pub open spec fn can_run(&self, n: nat) -> bool {
        &&& strategy_ok(self.spec_strategy())
        &&& self.spec_tb_counter() + n <= usize::MAX
        &&& self.spec_state().tb_count + n <= u64::MAX
        &&& self.spec_state().mismatch_count + n <= u64::MAX
        &&& self.spec_stats().total_tbs + n <= u64::MAX
        &&& self.spec_stats().matched_tbs + n <= u64::MAX
        &&& self.spec_stats().mismatched_tbs + n <= u64::MAX
        &&& self.spec_stats().total_exec_time_tcg.nanos <= crate::time::MAX_TIME_NANOS
        &&& self.spec_stats().total_exec_time_qemu.nanos <= crate::time::MAX_TIME_NANOS
        &&& self.spec_bridge() matches Some(b) ==> b.spec_execution_count() + n <= u64::MAX
    }

    /// Runs steps with the translator execution `tcg_execute_fn` until
    /// `max_steps` steps have completed (without a limit, until the counters
    /// are exhausted) or the mismatch limit stops the run. The bridge is
    /// connected for the run and disconnected afterwards; the result is a
    /// copy of the statistics.
    pub fn run<F: FnMut(&QemuCpuState, u64) -> QemuExecResult>(
        &mut self,
        mut tcg_execute_fn: F,
        max_steps: Option<usize>,
    ) -> (r: Result<ExecutionStats, DifftestError>)
        requires
            forall|s: &QemuCpuState, pc: u64| tcg_execute_fn.requires((s, pc)),
            old(self).can_run(run_limit(max_steps) as nat),
        ensures
            r matches Ok(stats) && crate::sync::same_stats(stats, final(self).spec_stats()),
            exists|execs: Seq<MixedExecutor>, ts: Seq<QemuExecResult>|
                #[trigger] run_trace(
                    tcg_execute_fn,
                    *old(self),
                    *final(self),
                    execs,
                    ts,
                    run_limit(max_steps) as nat,
                ),
    {
        let limit: usize = match max_steps {
            Some(max) => max,
            None => usize::MAX,
        };
        let _ = self.connect_bridge();
        let ghost f0 = tcg_execute_fn;
        let ghost execs: Seq<MixedExecutor> = seq![*self];
        let ghost ts: Seq<QemuExecResult> = Seq::empty();
        let mut steps: usize = 0;
        let mut stopped = false;
        while steps < limit && !stopped
            invariant
                limit == run_limit(max_steps),
                tcg_execute_fn == f0,
                steps <= limit,
                ts.len() == steps + if stopped { 1int } else { 0int },
                execs.len() == ts.len() + 1,
                execs.last() == *self,
                forall|s: &QemuCpuState, pc: u64| tcg_execute_fn.requires((s, pc)),
                bridge_connected(*old(self), execs[0], true),
                !stopped ==> steps_ok(execs, ts),
                !stopped ==> self.can_run((limit - steps) as nat),
                !stopped ==> (self.spec_bridge() matches Some(b) ==> b.spec_connected()),
                stopped ==> stops_at_mismatch(execs, ts),
                forall|i: int|
                    0 <= i < ts.len() ==> #[trigger] tcg_execute_fn.ensures(
                        (&execs[i].spec_state().tcg_state, execs[i].spec_state().current_pc),
                        ts[i],
                    ),
            decreases limit - steps, if stopped { 0int } else { 1int },
        {
            let pc = self.state.current_pc;
            let t = tcg_execute_fn(&self.state.tcg_state, pc);
            let ghost before = *self;
            let ghost old_execs = execs;
            let ghost old_ts = ts;
            let res = self.step_with_result(t);
            proof {
                execs = execs.push(*self);
                ts = ts.push(t);
                assert forall|i: int| 0 <= i < old_ts.len() implies #[trigger] step_ok_at(
                    execs,
                    ts,
                    i,
                ) by {
                    assert(step_ok_at(old_execs, old_ts, i));
                    assert(execs[i] == old_execs[i] && execs[i + 1] == old_execs[i + 1] && ts[i]
                        == old_ts[i]);
                }
                assert(execs[old_ts.len() as int] == before);
                assert(execs[old_ts.len() as int + 1] == *self);
                assert(ts[old_ts.len() as int] == t);
                assert forall|i: int| 0 <= i < ts.len() implies #[trigger] tcg_execute_fn.ensures(
                    (&execs[i].spec_state().tcg_state, execs[i].spec_state().current_pc),
                    ts[i],
                ) by {
                    if i < old_ts.len() {
                        assert(execs[i] == old_execs[i] && ts[i] == old_ts[i]);
                    }
                }
            }
            match res {
                Ok(c) => {
                    proof {
                        assert(step_spec(before, *self, t, Ok(c)));
                        assert(step_ok_at(execs, ts, old_ts.len() as int));
                    }
                    steps += 1;
                },
                Err(e) => {
                    proof {
                        assert(step_spec(before, *self, t, Err(e)));
                        assert(e is MaxMismatchesReached);
                    }
                    stopped = true;
                },
            }
        }
        self.disconnect_bridge();
        assert(run_trace(tcg_execute_fn, *old(self), *self, execs, ts, run_limit(max_steps) as nat));
        Ok(self.stats.duplicate())
    }

    pub fn get_state(&self) -> (r: &DifftestState)
        ensures
            *r == self.spec_state(),
    {
        &self.state
    }

    pub fn get_stats(&self) -> (r: &ExecutionStats)
        ensures
            *r == self.spec_stats(),
    {
        &self.stats
    }

    pub fn get_strategy(&self) -> (r: &SwitchStrategy)
        ensures
            *r == self.spec_strategy(),
    {
        &self.strategy
    }

    pub fn set_strategy(&mut self, strategy: SwitchStrategy)
        ensures
            final(self).spec_strategy() == strategy,
            final(self).spec_state() == old(self).spec_state(),
            final(self).spec_synchronizer() == old(self).spec_synchronizer(),
            final(self).spec_stats() == old(self).spec_stats(),
            final(self).spec_mode() == old(self).spec_mode(),
            final(self).spec_tb_counter() == old(self).spec_tb_counter(),
            final(self).spec_bridge() == old(self).spec_bridge(),
            final(self).spec_max_mismatches() == old(self).spec_max_mismatches(),
            final(self).spec_stop_on_mismatch() == old(self).spec_stop_on_mismatch(),
    {
        self.strategy = strategy;
    }
}

/// `new` is `old` with the bridge, if any, connected (or disconnected).
pub open spec fn bridge_connected(old: MixedExecutor, new: MixedExecutor, connected: bool) -> bool {
    &&& new.spec_strategy() == old.spec_strategy()
    &&& new.spec_state() == old.spec_state()
    &&& new.spec_synchronizer() == old.spec_synchronizer()
    &&& new.spec_stats() == old.spec_stats()
    &&& new.spec_mode() == old.spec_mode()
    &&& new.spec_tb_counter() == old.spec_tb_counter()
    &&& new.spec_max_mismatches() == old.spec_max_mismatches()
    &&& new.spec_stop_on_mismatch() == old.spec_stop_on_mismatch()
    &&& match (old.spec_bridge(), new.spec_bridge()) {
        (None, None) => true,
        (Some(a), Some(b)) => {
            &&& b.spec_connected() == connected
            &&& b.spec_config() == a.spec_config()
            &&& b.spec_execution_count() == a.spec_execution_count()
            &&& b.spec_total_exec_time() == a.spec_total_exec_time()
            &&& b.spec_tb_cache() == a.spec_tb_cache()
        },
        _ => false,
    }
}

/// The parts a step leaves alone.
pub open spec fn step_frame(old: MixedExecutor, new: MixedExecutor) -> bool {
    &&& new.spec_strategy() == old.spec_strategy()
    &&& new.spec_synchronizer() == old.spec_synchronizer()
    &&& new.spec_mode() == old.spec_mode()
    &&& new.spec_max_mismatches() == old.spec_max_mismatches()
    &&& new.spec_stop_on_mismatch() == old.spec_stop_on_mismatch()
}

/// The counters and PC after a completed step with translator result `t`.
pub open spec fn step_advanced(old: MixedExecutor, new: MixedExecutor, t: QemuExecResult) -> bool {
    &&& new.spec_tb_counter() == old.spec_tb_counter() + 1
    &&& new.spec_state().tb_count == old.spec_state().tb_count + 1
    &&& new.spec_state().current_pc == t.next_pc
    &&& new.spec_state().last_sync_pc == old.spec_state().last_sync_pc
}

/// A step that ran the TB on the translator alone: the translator state
/// becomes the result's (only when the strategy chose the translator), and
/// a matching comparison is counted.
pub open spec fn step_tcg_only(old: MixedExecutor, new: MixedExecutor, t: QemuExecResult, qemu_chosen: bool) -> bool {
    let pc = old.spec_state().current_pc;
    &&& step_frame(old, new)
    &&& step_advanced(old, new, t)
    &&& new.spec_bridge() == old.spec_bridge()
    &&& new.spec_state().tcg_state == if qemu_chosen { old.spec_state().tcg_state } else { t.cpu_state }
    &&& new.spec_state().qemu_state == old.spec_state().qemu_state
    &&& new.spec_state().mismatch_count == old.spec_state().mismatch_count
    &&& new.spec_stats().total_tbs == old.spec_stats().total_tbs + 1
    &&& new.spec_stats().matched_tbs == old.spec_stats().matched_tbs + 1
    &&& new.spec_stats().mismatched_tbs == old.spec_stats().mismatched_tbs
    &&& new.spec_stats().total_exec_time_tcg == old.spec_stats().total_exec_time_tcg
    &&& new.spec_stats().total_exec_time_qemu == old.spec_stats().total_exec_time_qemu
    &&& new.spec_stats().sync_count == old.spec_stats().sync_count
    &&& new.spec_stats().mismatch_details@ == old.spec_stats().mismatch_details@
}

/// The outcome of one step with translator result `t`: the new executor and
/// the returned value.
pub open spec fn step_spec(
    old: MixedExecutor,
    new: MixedExecutor,
    t: QemuExecResult,
    r: Result<Option<StateComparison>, DifftestError>,
) -> bool {
    let pc = old.spec_state().current_pc;
    let use_qemu = should_use_qemu_spec(old.spec_strategy(), pc, old.spec_tb_counter());
    if !use_qemu || old.spec_bridge() is None {
        &&& r matches Ok(None)
        &&& step_tcg_only(old, new, t, use_qemu)
    } else {
        let b = old.spec_bridge()->Some_0;
        if !b.spec_connected() {
            // QEMU cannot run the TB: nothing changes.
            &&& r matches Err(DifftestError::QemuError(QemuError::NotConnected))
            &&& new == old
        } else {
            // QEMU runs the TB; its state is taken over and the results compared.
            exists|q: QemuExecResult, c: StateComparison|
                #![trigger compare_results_spec(t, q, c)]
                {
                    &&& b.exec_result_spec(pc, old.spec_state().tcg_state, q)
                    &&& compare_results_spec(t, q, c)
                    &&& step_frame(old, new)
                    &&& new.spec_bridge() matches Some(nb) && nb.spec_connected()
                        && nb.spec_config() == b.spec_config() && nb.spec_tb_cache()
                        == b.spec_tb_cache() && nb.spec_execution_count()
                        == b.spec_execution_count() + 1 && nb.spec_total_exec_time()
                        == b.spec_total_exec_time().add_spec(q.exec_time)
                    &&& new.spec_state().qemu_state == q.cpu_state
                    &&& new.spec_state().tcg_state == old.spec_state().tcg_state
                    &&& record_tb_spec(old.spec_stats(), new.spec_stats(), c)
                    &&& if c.is_match_spec() {
                        &&& new.spec_state().mismatch_count == old.spec_state().mismatch_count
                        &&& step_advanced(old, new, t)
                        &&& r matches Ok(Some(rc)) && same_comparison(rc, c)
                    } else {
                        let mismatches = old.spec_state().mismatch_count + 1;
                        &&& new.spec_state().mismatch_count == mismatches
                        &&& if old.spec_stop_on_mismatch() && mismatches
                            >= old.spec_max_mismatches() {
                            // Too many mismatches: the step is abandoned.
                            &&& r matches Err(DifftestError::MaxMismatchesReached)
                            &&& new.spec_tb_counter() == old.spec_tb_counter()
                            &&& new.spec_state().tb_count == old.spec_state().tb_count
                            &&& new.spec_state().current_pc == old.spec_state().current_pc
                            &&& new.spec_state().last_sync_pc == old.spec_state().last_sync_pc
                        } else {
                            &&& step_advanced(old, new, t)
                            &&& r matches Ok(Some(rc)) && same_comparison(rc, c)
                        }
                    }
                }
        }
    }
}

/// The number of steps a run may take.
pub open spec fn run_limit(max_steps: Option<usize>) -> usize {
    match max_steps {
        Some(m) => m,
        None => usize::MAX,
    }
}

/// Step `i` of the trace completed normally.
pub open spec fn step_ok_at(execs: Seq<MixedExecutor>, ts: Seq<QemuExecResult>, i: int) -> bool {
    exists|c: Option<StateComparison>| #[trigger] step_spec(execs[i], execs[i + 1], ts[i], Ok(c))
}

/// Each step of the trace completed normally from one executor to the next.
pub open spec fn steps_ok(execs: Seq<MixedExecutor>, ts: Seq<QemuExecResult>) -> bool {
    forall|i: int| 0 <= i < ts.len() ==> #[trigger] step_ok_at(execs, ts, i)
}

/// All steps but the last completed; the last was stopped by the mismatch
/// limit.
pub open spec fn stops_at_mismatch(execs: Seq<MixedExecutor>, ts: Seq<QemuExecResult>) -> bool {
    &&& ts.len() >= 1
    &&& forall|i: int| 0 <= i < ts.len() - 1 ==> #[trigger] step_ok_at(execs, ts, i)
    &&& step_spec(
        execs[ts.len() - 1],
        execs[ts.len() as int],
        ts[ts.len() - 1],
        Err(DifftestError::MaxMismatchesReached),
    )
}

/// A run from `start` to `end`: the bridge is connected, steps go from each
/// executor of `execs` to the next with the translator results `ts`, each of
/// which `f` gave for that executor's state and PC, until `limit` steps
/// completed or the mismatch limit stopped the last one, and the bridge is
/// disconnected.
pub open spec fn run_trace<F: FnMut(&QemuCpuState, u64) -> QemuExecResult>(
    f: F,
    start: MixedExecutor,
    end: MixedExecutor,
    execs: Seq<MixedExecutor>,
    ts: Seq<QemuExecResult>,
    limit: nat,
) -> bool {
    &&& execs.len() == ts.len() + 1
    &&& bridge_connected(start, execs[0], true)
    &&& bridge_connected(execs.last(), end, false)
    &&& ts.len() <= limit + 1
    &&& forall|i: int|
        0 <= i < ts.len() ==> #[trigger] f.ensures(
            (&execs[i].spec_state().tcg_state, execs[i].spec_state().current_pc),
            ts[i],
        )
    &&& (steps_ok(execs, ts) && ts.len() == limit) || stops_at_mismatch(execs, ts)
}

/// An alternating executor for `arch`.
pub fn create_alternating_executor(arch: &str, tcg_count: usize, qemu_count: usize) -> (e:
    MixedExecutor)
    requires
        is_supported_arch(arch@),
    ensures
        e.spec_strategy() == (SwitchStrategy::Alternating { tcg_count, qemu_count }),
        initial_state_for(arch@, e.spec_state().tcg_state),
        e.spec_state().current_pc == 0,
        e.spec_tb_counter() == 0,
        e.spec_bridge() is None,
{
    MixedExecutor::new(arch, SwitchStrategy::alternating(tcg_count, qemu_count))
}

/// An executor for `arch` that uses QEMU at the listed PCs.
pub fn create_pc_based_executor(arch: &str, qemu_pcs: Vec<u64>) -> (e: MixedExecutor)
    requires
        is_supported_arch(arch@),
    ensures
        e.spec_strategy() matches SwitchStrategy::PcBased { qemu_pcs: set } && set@
            == qemu_pcs@.to_set(),
        initial_state_for(arch@, e.spec_state().tcg_state),
        e.spec_state().current_pc == 0,
        e.spec_tb_counter() == 0,
        e.spec_bridge() is None,
{
    MixedExecutor::new(arch, SwitchStrategy::pc_based(qemu_pcs))
}

/// An executor for `arch` that uses QEMU inside the listed PC ranges.
pub fn create_range_based_executor(arch: &str, qemu_ranges: Vec<(u64, u64)>) -> (e: MixedExecutor)
    requires
        is_supported_arch(arch@),
    ensures
        e.spec_strategy() matches SwitchStrategy::RangeBased { qemu_ranges: r } && r@
            == qemu_ranges@,
        initial_state_for(arch@, e.spec_state().tcg_state),
        e.spec_state().current_pc == 0,
        e.spec_tb_counter() == 0,
        e.spec_bridge() is None,
{
    MixedExecutor::new(arch, SwitchStrategy::range_based(qemu_ranges))
}

/// With an alternating strategy, the TBs of each cycle of
/// `tcg_count + qemu_count` run first `tcg_count` times on the translator,
/// then `qemu_count` times on QEMU, and the pattern repeats.
pub proof fn law_alternating_cycle(tcg_count: usize, qemu_count: usize, pc: u64, n: usize)
    requires
        0 < tcg_count + qemu_count,
        n + tcg_count + qemu_count <= usize::MAX,
    ensures
        should_use_qemu_spec(SwitchStrategy::Alternating { tcg_count, qemu_count }, pc, n) == (n
            as int % (tcg_count + qemu_count) as int >= tcg_count),
        should_use_qemu_spec(
            SwitchStrategy::Alternating { tcg_count, qemu_count },
            pc,
            (n + tcg_count + qemu_count) as usize,
        ) == should_use_qemu_spec(SwitchStrategy::Alternating { tcg_count, qemu_count }, pc, n),
{
    let m = (tcg_count + qemu_count) as int;
    vstd::arithmetic::div_mod::lemma_mod_add_multiples_vanish(n as int, m);
}

} // verus!
