use tcg_rs::mixed_executor::{
    create_alternating_executor, create_pc_based_executor, create_range_based_executor,
    DifftestError, MixedExecutor, SwitchStrategy,
};
use tcg_rs::qemu_bridge::{
    create_bridge, create_stub_bridge, MemWrite, QemuBridge, QemuBridgeConfig, QemuError,
    QemuExecResult,
};
use tcg_rs::qemu_cpu_state::{Aarch64CpuState, CpuState, QemuCpuState, RiscvCpuState};
use tcg_rs::sync::{
    compare_mem_writes, compare_results, format_comparison, DifftestState, ExecutionStats,
    StateComparison, StateSynchronizer, SyncReason,
};
use tcg_rs::time::ExecTime;

fn dummy_tcg_execute(state: &QemuCpuState, pc: u64) -> QemuExecResult {
    let mut result_state = state.clone();
    if let QemuCpuState::Aarch64(ref mut aarch64) = result_state {
        aarch64.pc = pc + 4;
    }
    QemuExecResult::new(pc, result_state).with_next_pc(pc + 4)
}

#[test]
fn test_switch_strategy_alternating() {
    let strategy = SwitchStrategy::alternating(2, 1);

    assert!(!strategy.should_use_qemu(0x1000, 0));
    assert!(!strategy.should_use_qemu(0x1000, 1));
    assert!(strategy.should_use_qemu(0x1000, 2));
    assert!(!strategy.should_use_qemu(0x1000, 3));
}

#[test]
fn test_switch_strategy_pc_based() {
    let strategy = SwitchStrategy::pc_based(vec![0x2000, 0x3000]);

    assert!(!strategy.should_use_qemu(0x1000, 0));
    assert!(strategy.should_use_qemu(0x2000, 0));
    assert!(!strategy.should_use_qemu(0x2500, 0));
    assert!(strategy.should_use_qemu(0x3000, 0));
}

#[test]
fn test_switch_strategy_range_based() {
    let strategy = SwitchStrategy::range_based(vec![(0x2000, 0x3000)]);

    assert!(!strategy.should_use_qemu(0x1000, 0));
    assert!(strategy.should_use_qemu(0x2000, 0));
    assert!(strategy.should_use_qemu(0x2500, 0));
    assert!(!strategy.should_use_qemu(0x3000, 0));
}

#[test]
fn test_mixed_executor_creation() {
    let executor = MixedExecutor::new("aarch64", SwitchStrategy::tcg_only());

    assert_eq!(executor.get_state().current_pc, 0);
    assert_eq!(executor.get_strategy(), &SwitchStrategy::TcgOnly);
}

#[test]
fn test_mixed_executor_with_initial_state() {
    let state = QemuCpuState::Aarch64(Aarch64CpuState::new());
    let executor = MixedExecutor::new("aarch64", SwitchStrategy::tcg_only())
        .with_initial_pc(0x4000)
        .with_initial_state(state);

    assert_eq!(executor.get_state().current_pc, 0x4000);
}

#[test]
fn test_qemu_bridge_config_default() {
    let config = QemuBridgeConfig::default();
    assert_eq!(config.guest_arch, "aarch64");
    assert_eq!(config.system_mode, false);
    assert_eq!(config.memory_size, 256 * 1024 * 1024);
}

#[test]
fn test_qemu_bridge_connect() {
    let mut bridge = QemuBridge::new(QemuBridgeConfig::default());
    assert!(!bridge.is_connected());

    bridge.connect().unwrap();
    assert!(bridge.is_connected());

    bridge.disconnect();
    assert!(!bridge.is_connected());
}

#[test]
fn test_exec_result_builder() {
    let state = QemuCpuState::Aarch64(Aarch64CpuState::new());
    let result = QemuExecResult::new(0x4000, state).with_next_pc(0x4004).with_tb_size(4);

    assert_eq!(result.tb_pc, 0x4000);
    assert_eq!(result.next_pc, 0x4004);
    assert_eq!(result.tb_size, 4);
}

#[test]
fn test_stub_bridge() {
    let mut bridge = create_stub_bridge("aarch64");
    bridge.connect().unwrap();

    let state = QemuCpuState::Aarch64(Aarch64CpuState::new());
    let result = bridge.execute_tb(0x4000, &state).unwrap();

    assert_eq!(result.tb_pc, 0x4000);
}

#[test]
fn test_aarch64_cpu_state() {
    let mut state = Aarch64CpuState::new();
    state.set_x(0, 0x1234);
    state.set_x(1, 0x5678);
    state.pc = 0x4000;
    state.sp = 0x8000;

    assert_eq!(state.get_x(0), Some(0x1234));
    assert_eq!(state.get_x(1), Some(0x5678));
    assert_eq!(state.pc, 0x4000);
    assert_eq!(state.sp, 0x8000);
}

#[test]
fn test_aarch64_diff() {
    let mut state1 = Aarch64CpuState::new();
    let mut state2 = Aarch64CpuState::new();

    state1.set_x(0, 0x1234);
    state2.set_x(0, 0x5678);
    state1.pc = 0x4000;
    state2.pc = 0x4004;

    let diffs = state1.diff(&state2);
    assert!(!diffs.is_empty());
    assert!(diffs.iter().any(|d| d.contains("X0")));
    assert!(diffs.iter().any(|d| d.contains("PC")));
}

#[test]
fn test_riscv_cpu_state() {
    let mut state = RiscvCpuState::new();
    state.set_x(10, 0x1234);
    state.set_x(11, 0x5678);
    state.pc = 0x4000;

    assert_eq!(state.get_x(10), Some(0x1234));
    assert_eq!(state.get_x(11), Some(0x5678));
    assert_eq!(state.pc, 0x4000);
}

#[test]
fn test_qemu_cpu_state_enum() {
    let aarch64_state = Aarch64CpuState::new();
    let riscv_state = RiscvCpuState::new();

    let qemu_aarch64: QemuCpuState = aarch64_state.into();
    let qemu_riscv: QemuCpuState = riscv_state.into();

    assert!(qemu_aarch64.as_aarch64().is_some());
    assert!(qemu_aarch64.as_riscv64().is_none());
    assert!(qemu_riscv.as_riscv64().is_some());
    assert!(qemu_riscv.as_aarch64().is_none());
}

#[test]
fn test_difftest_state() {
    let state = DifftestState::new("aarch64");
    assert_eq!(state.tb_count, 0);
    assert_eq!(state.mismatch_count, 0);
    assert_eq!(state.current_pc, 0);
}

#[test]
fn test_state_synchronizer() {
    let mut sync = StateSynchronizer::new().with_interval(5);

    assert!(!sync.should_sync(0x1000));
    assert!(!sync.should_sync(0x1004));
    assert!(!sync.should_sync(0x1008));
    assert!(!sync.should_sync(0x100c));
    assert!(sync.should_sync(0x1010));
    assert!(!sync.should_sync(0x1014));

    sync.add_force_sync_pc(0x2000);
    assert!(sync.should_sync(0x2000));
}

#[test]
fn test_execution_stats() {
    let mut stats = ExecutionStats::new();

    let comparison = StateComparison::new(0x4000);
    stats.record_tb(&comparison);

    assert_eq!(stats.total_tbs, 1);
    assert_eq!(stats.matched_tbs, 1);
    assert_eq!(stats.mismatched_tbs, 0);
}

#[test]
fn test_compare_mem_writes() {
    let writes1 = vec![MemWrite::new(0x1000, 0x1234, 4), MemWrite::new(0x1004, 0x5678, 4)];

    let writes2 = vec![MemWrite::new(0x1000, 0x1234, 4), MemWrite::new(0x1004, 0x5678, 4)];

    let diffs = compare_mem_writes(&writes1, &writes2);
    assert!(diffs.is_empty());
}

// ---------------------------------------------------------------------
// Further cases
// ---------------------------------------------------------------------

#[test]
fn alternating_cycle_repeats() {
    let strategy = SwitchStrategy::alternating(2, 3);
    let pattern: Vec<bool> = (0..10).map(|n| strategy.should_use_qemu(0, n)).collect();
    assert_eq!(
        pattern,
        vec![false, false, true, true, true, false, false, true, true, true]
    );
    assert!(!SwitchStrategy::tcg_only().should_use_qemu(0, 7));
    assert!(SwitchStrategy::qemu_only().should_use_qemu(0, 7));
    assert!(matches!(SwitchStrategy::default(), SwitchStrategy::TcgOnly));
}

#[test]
fn range_strategy_with_several_ranges() {
    let strategy = SwitchStrategy::range_based(vec![(0x10, 0x20), (0x40, 0x41)]);
    assert!(strategy.should_use_qemu(0x1f, 0));
    assert!(!strategy.should_use_qemu(0x20, 0));
    assert!(strategy.should_use_qemu(0x40, 0));
    assert!(!strategy.should_use_qemu(0x41, 0));
}

#[test]
fn aarch64_diff_texts() {
    let mut a = Aarch64CpuState::new();
    let mut b = Aarch64CpuState::new();
    a.set_x(3, 0xdead_beef);
    b.set_v(31, 1);
    b.fpsr = 0x10;
    b.sp = 0xff;
    let diffs = a.diff(&b);
    assert_eq!(
        diffs,
        vec![
            "X3: 00000000deadbeef vs 0000000000000000".to_string(),
            "SP: 0000000000000000 vs 00000000000000ff".to_string(),
            "V31: 00000000000000000000000000000000 vs 00000000000000000000000000000001"
                .to_string(),
            "FPSR: 00000000 vs 00000010".to_string(),
        ]
    );
    assert!(a.diff(&a).is_empty());
    assert_eq!(a.get_x(31), None);
    assert_eq!(b.get_v(31), Some(1));
    assert_eq!(b.get_v(32), None);
    let before = a;
    a.set_x(40, 5);
    assert_eq!(a, before);
}

#[test]
fn riscv_diff_uses_abi_names() {
    let mut a = RiscvCpuState::new();
    let mut b = RiscvCpuState::new();
    a.set_x(10, 1);
    b.set_f(31, 2);
    b.privilege = 3;
    b.mstatus = 0xa;
    let diffs = a.diff(&b);
    assert_eq!(
        diffs,
        vec![
            "a0: 0000000000000001 vs 0000000000000000".to_string(),
            "ft11: 0000000000000000 vs 0000000000000002".to_string(),
            "PRIV: 0 vs 3".to_string(),
            "MSTATUS: 0000000000000000 vs 000000000000000a".to_string(),
        ]
    );
    assert_eq!(a.get_f(32), None);
    assert_eq!(RiscvCpuState::gpr_name(2), Some("sp"));
    assert_eq!(RiscvCpuState::fpr_name(8), Some("fs0"));
    assert_eq!(RiscvCpuState::gpr_name(32), None);
    assert_eq!(Aarch64CpuState::gpr_name(30), Some("x30"));
    assert_eq!(Aarch64CpuState::fpr_name(31), Some("v31"));
    assert_eq!(RiscvCpuState::sp_reg_name(), "x2");
    assert_eq!(Aarch64CpuState::pc_reg_name(), "pc");
}

#[test]
fn qemu_cpu_state_mismatch_and_names() {
    let a: QemuCpuState = Aarch64CpuState::new().into();
    let r: QemuCpuState = RiscvCpuState::new().into();
    assert_eq!(a.diff(&r), vec!["Architecture mismatch".to_string()]);
    assert_eq!(a.arch_name(), "aarch64");
    assert_eq!(r.arch_name(), "riscv64");
    assert_eq!(<Aarch64CpuState as CpuState>::num_gprs(), 31);
    assert_eq!(<RiscvCpuState as CpuState>::num_fprs(), 32);
    let mut m = a;
    if let Some(s) = m.as_aarch64_mut() {
        s.pc = 8;
    }
    assert_eq!(m.as_aarch64().unwrap().pc, 8);
    let mut rr = r;
    assert!(rr.as_aarch64_mut().is_none());
    rr.as_riscv64_mut().unwrap().pc = 12;
    assert_eq!(rr.as_riscv64().unwrap().pc, 12);
}

#[test]
fn bridge_execute_and_stats() {
    let mut bridge = create_bridge("riscv64").unwrap();
    let state: QemuCpuState = RiscvCpuState::new().into();
    assert!(matches!(bridge.execute_tb(0x100, &state), Err(QemuError::NotConnected)));
    assert!(matches!(bridge.sync_state(&state), Err(QemuError::NotConnected)));
    bridge.connect().unwrap();
    assert!(bridge.sync_state(&state).is_ok());
    let result = bridge.execute_tb(0x100, &state).unwrap();
    assert_eq!(result.tb_pc, 0x100);
    assert_eq!(result.next_pc, 0x104);
    assert_eq!(result.tb_size, 4);
    assert_eq!(result.cpu_state.as_riscv64().unwrap().pc, 0x104);
    let stats = bridge.get_stats();
    assert_eq!(stats.execution_count, 1);
    assert!(stats.connected);
    assert_eq!(stats.avg_exec_time, stats.total_exec_time);
    bridge.reset_stats();
    assert_eq!(bridge.get_stats().execution_count, 0);
    assert_eq!(bridge.get_stats().avg_exec_time.as_nanos(), 0);
}

#[test]
fn bridge_pc_wraps() {
    let mut bridge = QemuBridge::new(QemuBridgeConfig::default());
    bridge.connect().unwrap();
    let state: QemuCpuState = Aarch64CpuState::new().into();
    let result = bridge.execute_tb(u64::MAX - 1, &state).unwrap();
    assert_eq!(result.next_pc, 2);
    assert_eq!(result.cpu_state.as_aarch64().unwrap().pc, 2);
}

#[test]
fn config_for_arch() {
    let config = QemuBridgeConfig::for_arch("riscv64");
    assert_eq!(config.qemu_path, "qemu-system-riscv64");
    assert_eq!(config.host_arch, "x86_64");
    assert!(config.additional_args.is_empty());
    assert_eq!(QemuBridgeConfig::default().qemu_path, "qemu-system-aarch64");
}

#[test]
fn stub_bridge_presets() {
    let mut bridge = create_stub_bridge("aarch64");
    let state: QemuCpuState = Aarch64CpuState::new().into();
    assert!(matches!(bridge.execute_tb(0, &state), Err(QemuError::NotConnected)));
    bridge.connect().unwrap();
    let preset = QemuExecResult::new(0x10, state)
        .with_next_pc(0x80)
        .with_mem_writes(vec![MemWrite::new(1, 2, 8)])
        .with_exec_time(ExecTime::from_nanos(7));
    bridge.set_execution_result(0x10, preset);
    let got = bridge.execute_tb(0x10, &state).unwrap();
    assert_eq!(got.next_pc, 0x80);
    assert_eq!(got.mem_writes, vec![MemWrite::new(1, 2, 8)]);
    assert_eq!(got.exec_time.as_nanos(), 7);
    let other = bridge.execute_tb(0x20, &state).unwrap();
    assert_eq!(other.next_pc, 0x24);
    assert_eq!(other.cpu_state, state);
    bridge.disconnect();
    assert!(!bridge.is_connected());
}

#[test]
fn error_messages() {
    assert_eq!(QemuError::NotConnected.message(), "Not connected to QEMU");
    assert_eq!(QemuError::Timeout.message(), "Operation timed out");
    assert_eq!(
        QemuError::ConnectionFailed("x".to_string()).message(),
        "Connection failed: x"
    );
    assert_eq!(
        QemuError::InvalidResponse("bad".to_string()).message(),
        "Invalid response: bad"
    );
    assert_eq!(
        DifftestError::QemuError(QemuError::ExecutionFailed("boom".to_string())).message(),
        "QEMU error: Execution failed: boom"
    );
    assert_eq!(
        DifftestError::MaxMismatchesReached.message(),
        "Maximum number of mismatches reached"
    );
    assert_eq!(DifftestError::InvalidState("s".to_string()).message(), "Invalid state: s");
    assert_eq!(
        DifftestError::ExecutionError("e".to_string()).message(),
        "Execution error: e"
    );
    let from: DifftestError = QemuError::ProtocolError("p".to_string()).into();
    assert_eq!(from.message(), "QEMU error: Protocol error: p");
}

#[test]
fn synchronizer_skip_force_and_history() {
    let mut sync = StateSynchronizer::new().with_interval(2);
    sync.add_skip_sync_pc(0x10);
    sync.add_force_sync_pc(0x20);
    assert!(!sync.should_sync(0x10));
    assert!(!sync.should_sync(0x10));
    assert!(!sync.should_sync(0x30));
    assert!(sync.should_sync(0x20));
    assert!(!sync.should_sync(0x30));
    assert!(sync.should_sync(0x34));
    sync.record_sync(0x99, SyncReason::Manual);
    let history: Vec<(u64, SyncReason)> =
        sync.get_sync_history().iter().map(|r| (r.pc, r.reason)).collect();
    assert_eq!(
        history,
        vec![
            (0x20, SyncReason::Forced),
            (0x34, SyncReason::Interval),
            (0x99, SyncReason::Manual)
        ]
    );
    sync.clear_history();
    assert!(sync.get_sync_history().is_empty());
    assert!(!sync.should_sync(0x40));
    sync.reset();
    assert!(!sync.should_sync(0x44));
    assert!(sync.should_sync(0x48));
}

#[test]
fn comparison_and_stats() {
    let a: QemuCpuState = Aarch64CpuState::new().into();
    let mut changed = Aarch64CpuState::new();
    changed.pc = 4;
    let b: QemuCpuState = changed.into();
    let tcg = QemuExecResult::new(0x40, a)
        .with_mem_writes(vec![MemWrite::new(8, 9, 1)])
        .with_exec_time(ExecTime::from_nanos(10));
    let qemu = QemuExecResult::new(0x40, b)
        .with_mem_writes(vec![MemWrite::new(8, 9, 1)])
        .with_exec_time(ExecTime::from_nanos(30));
    let comp = compare_results(&tcg, &qemu);
    assert!(!comp.matches);
    assert!(!comp.is_match());
    assert_eq!(comp.diffs, vec!["PC: 0000000000000000 vs 0000000000000004".to_string()]);
    let same = compare_results(&tcg, &tcg);
    assert!(same.is_match());
    let writes_differ = StateComparison::new(0)
        .with_mem_writes(vec![MemWrite::new(1, 1, 1)], vec![]);
    assert!(!writes_differ.is_match());

    let mut stats = ExecutionStats::new();
    stats.record_tb(&comp);
    stats.record_tb(&same);
    stats.record_sync();
    assert_eq!(stats.total_tbs, 2);
    assert_eq!(stats.matched_tbs, 1);
    assert_eq!(stats.mismatched_tbs, 1);
    assert_eq!(stats.mismatch_details.len(), 1);
    assert_eq!(stats.sync_count, 1);
    assert_eq!(stats.total_exec_time_tcg.as_nanos(), 20);
    assert_eq!(stats.avg_exec_time_tcg().as_nanos(), 10);
    assert_eq!(stats.avg_exec_time_qemu().as_nanos(), 20);
    assert_eq!(ExecutionStats::new().avg_exec_time_tcg().as_nanos(), 0);
}

#[test]
fn comparison_report() {
    let comp = StateComparison::new(0x1234)
        .with_diffs(vec!["X1: 1 vs 2".to_string()])
        .with_exec_times(ExecTime::from_nanos(1_500), ExecTime::from_nanos(0));
    let text = format_comparison(&comp);
    assert_eq!(
        text,
        "PC: 0x0000000000001234\nMatch: false\nDifferences:\n  - X1: 1 vs 2\nTCG exec time: 1.5µs\nQEMU exec time: 0ns\n"
    );
    let plain = format_comparison(&StateComparison::new(0));
    assert_eq!(
        plain,
        "PC: 0x0000000000000000\nMatch: true\nTCG exec time: 0ns\nQEMU exec time: 0ns\n"
    );
}

#[test]
fn mem_write_differences() {
    let a = vec![MemWrite::new(0x1000, 1, 4), MemWrite::new(0x1004, 2, 4)];
    let b = vec![MemWrite::new(0x1000, 1, 4), MemWrite::new(0x1008, 2, 4), MemWrite::new(0, 0, 1)];
    let diffs = compare_mem_writes(&a, &b);
    assert_eq!(
        diffs,
        vec![
            "Write count mismatch: 2 vs 3".to_string(),
            "Write 1: TCG(MemWrite { addr: 4100, value: 2, size: 4 }) vs QEMU(MemWrite { addr: 4104, value: 2, size: 4 })".to_string(),
        ]
    );
    assert_eq!(format!("{:?}", a[1]), "MemWrite { addr: 4100, value: 2, size: 4 }");
}

#[test]
fn executor_steps_tcg_only() {
    let mut executor = create_alternating_executor("aarch64", 1, 1);
    let first = executor.step(dummy_tcg_execute).unwrap();
    assert!(first.is_none());
    assert_eq!(executor.get_state().current_pc, 4);
    assert_eq!(executor.get_state().tb_count, 1);
    // No bridge: the QEMU turn still counts as a matched TB.
    let second = executor.step(dummy_tcg_execute).unwrap();
    assert!(second.is_none());
    assert_eq!(executor.get_stats().total_tbs, 2);
    assert_eq!(executor.get_stats().matched_tbs, 2);
    assert_eq!(executor.get_state().current_pc, 8);
    assert_eq!(executor.get_state().tcg_state.as_aarch64().unwrap().pc, 4);
}

#[test]
fn executor_with_bridge_compares() {
    let bridge = QemuBridge::new(QemuBridgeConfig::default());
    let mut executor = MixedExecutor::new("aarch64", SwitchStrategy::qemu_only())
        .with_bridge(bridge)
        .with_initial_pc(0x1000);
    // Not connected yet: the QEMU side fails.
    assert!(matches!(
        executor.step(dummy_tcg_execute),
        Err(DifftestError::QemuError(QemuError::NotConnected))
    ));
    executor.connect_bridge().unwrap();
    let comp = executor.step(dummy_tcg_execute).unwrap().unwrap();
    assert!(comp.is_match());
    assert_eq!(comp.pc, 0x1000);
    assert_eq!(executor.get_state().current_pc, 0x1004);
    assert_eq!(executor.get_state().qemu_state.as_aarch64().unwrap().pc, 0x1004);
    executor.disconnect_bridge();
}

#[test]
fn executor_stops_after_mismatches() {
    let bridge = QemuBridge::new(QemuBridgeConfig::default());
    let mut executor = create_pc_based_executor("aarch64", vec![0])
        .with_bridge(bridge)
        .with_max_mismatches(1);
    // The translator side leaves the PC register alone, so QEMU differs.
    let stats = executor
        .run(|s, pc| QemuExecResult::new(pc, *s).with_next_pc(pc), Some(5))
        .unwrap();
    assert_eq!(stats.total_tbs, 1);
    assert_eq!(stats.mismatched_tbs, 1);
    assert_eq!(executor.get_state().mismatch_count, 1);
    assert_eq!(executor.get_state().tb_count, 0);
}

#[test]
fn executor_run_counts_steps() {
    let mut executor = create_range_based_executor("riscv64", vec![(0x10, 0x20)])
        .with_stop_on_mismatch(false);
    let stats = executor.run(dummy_tcg_execute, Some(3)).unwrap();
    assert_eq!(stats.total_tbs, 3);
    assert_eq!(executor.get_state().tb_count, 3);
    assert_eq!(executor.get_state().current_pc, 12);
    executor.set_strategy(SwitchStrategy::qemu_only());
    assert_eq!(executor.get_strategy(), &SwitchStrategy::QemuOnly);
    let default = MixedExecutor::new("riscv64", SwitchStrategy::default());
    assert_eq!(default.get_strategy(), &SwitchStrategy::TcgOnly);
}

#[test]
fn pc_based_strategy_clone_keeps_pcs() {
    let strategy = SwitchStrategy::pc_based(vec![0x1000, 0x2000, 0x1000]);
    let copy = strategy.clone();
    assert_eq!(copy, strategy);
    assert!(copy.should_use_qemu(0x2000, 0));
    assert!(!copy.should_use_qemu(0x3000, 0));
}
