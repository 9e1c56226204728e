//! The interface for running translation blocks in QEMU and collecting the
//! results that are compared against the translator's.

use std::collections::HashMap;

use vstd::prelude::*;

use crate::qemu_cpu_state::{Aarch64CpuState, QemuCpuState, RiscvCpuState};
use crate::text::dec_text;
use crate::time::{elapsed_since, now, ExecTime};

verus! {

broadcast use vstd::std_specs::hash::group_hash_axioms;

/// A memory write observed during execution.
#[derive(Clone, Copy, Debug, PartialEq, Eq, Structural)]
pub struct MemWrite {
    pub addr: u64,
    pub value: u64,
    pub size: usize,
}

impl MemWrite {
    pub fn new(addr: u64, value: u64, size: usize) -> (w: Self)
        ensures
            w == (MemWrite { addr, value, size }),
    {
        MemWrite { addr, value, size }
    }

    /// The text of the write as `{:?}` renders it.
    pub open spec fn debug_text(&self) -> Seq<char> {
        seq!['M', 'e', 'm', 'W', 'r', 'i', 't', 'e', ' ', '{', ' ', 'a', 'd', 'd', 'r', ':', ' ']
            + dec_text(self.addr as nat) + seq![',', ' ', 'v', 'a', 'l', 'u', 'e', ':', ' ']
            + dec_text(self.value as nat) + seq![',', ' ', 's', 'i', 'z', 'e', ':', ' '] + dec_text(
            self.size as nat,
        ) + seq![' ', '}']
    }

    /// Appends the text of the write as `{:?}` renders it.
    pub fn push_debug_text(&self, s: &mut String)
        ensures
            final(s)@ == old(s)@ + self.debug_text(),
    {
        proof {
            reveal_strlit("MemWrite { addr: ");
            reveal_strlit(", value: ");
            reveal_strlit(", size: ");
            reveal_strlit(" }");
        }
        s.append("MemWrite { addr: ");
        crate::text::push_dec(s, self.addr as u128);
        s.append(", value: ");
        crate::text::push_dec(s, self.value as u128);
        s.append(", size: ");
        crate::text::push_dec(s, self.size as u128);
        s.append(" }");
        assert(s@ =~= old(s)@ + self.debug_text());
    }
}

/// A copy of a list of memory writes.
pub fn copy_mem_writes(v: &Vec<MemWrite>) -> (r: Vec<MemWrite>)
    ensures
        r@ == v@,
{
    let mut r: Vec<MemWrite> = Vec::new();
    let mut i: usize = 0;
    while i < v.len()
        invariant
            i <= v.len(),
            r@ == v@.subrange(0, i as int),
        decreases v.len() - i,
    {
        r.push(v[i]);
        i += 1;
    }
    assert(r@ =~= v@);
    r
}

/// Whether two lists of memory writes are equal.
pub fn mem_writes_equal(a: &Vec<MemWrite>, b: &Vec<MemWrite>) -> (r: bool)
    ensures
        r == (a@ == b@),
{
    if a.len() != b.len() {
        return false;
    }
    let mut i: usize = 0;
    while i < a.len()
        invariant
            a.len() == b.len(),
            i <= a.len(),
            a@.subrange(0, i as int) == b@.subrange(0, i as int),
        decreases a.len() - i,
    {
        if a[i] != b[i] {
            assert(a@.subrange(0, i + 1)[i as int] != b@.subrange(0, i + 1)[i as int]);
            return false;
        }
        assert(a@.subrange(0, i + 1) =~= a@.subrange(0, i as int).push(a@[i as int]));
        assert(b@.subrange(0, i + 1) =~= b@.subrange(0, i as int).push(b@[i as int]));
        i += 1;
    }
    assert(a@ =~= a@.subrange(0, a.len() as int));
    assert(b@ =~= b@.subrange(0, b.len() as int));
    true
}

/// Result of executing a single TB.
#[derive(Clone, Debug)]
pub struct QemuExecResult {
    pub tb_pc: u64,
    pub next_pc: u64,
    pub cpu_state: QemuCpuState,
    pub tb_size: usize,
    pub mem_writes: Vec<MemWrite>,
    pub exec_time: ExecTime,
}

impl QemuExecResult {
    /// A result for the TB at `tb_pc` that continues at `tb_pc`, with no
    /// size, no memory writes and no time.
    pub fn new(tb_pc: u64, cpu_state: QemuCpuState) -> (r: Self)
        ensures
            r.tb_pc == tb_pc,
            r.next_pc == tb_pc,
            r.cpu_state == cpu_state,
            r.tb_size == 0,
            r.mem_writes@ == Seq::<MemWrite>::empty(),
            r.exec_time.nanos == 0,
    {
        QemuExecResult {
            tb_pc,
            next_pc: tb_pc,
            cpu_state,
            tb_size: 0,
            mem_writes: Vec::new(),
            exec_time: ExecTime::zero(),
        }
    }

    pub fn with_next_pc(self, next_pc: u64) -> (r: Self)
        ensures
            r == (QemuExecResult { next_pc, ..self }),
    {
        let mut s = self;
        s.next_pc = next_pc;
        s
    }

    pub fn with_tb_size(self, size: usize) -> (r: Self)
        ensures
            r == (QemuExecResult { tb_size: size, ..self }),
    {
        let mut s = self;
        s.tb_size = size;
        s
    }

    pub fn with_mem_writes(self, writes: Vec<MemWrite>) -> (r: Self)
        ensures
            r == (QemuExecResult { mem_writes: writes, ..self }),
    {
        let mut s = self;
        s.mem_writes = writes;
        s
    }

    pub fn with_exec_time(self, time: ExecTime) -> (r: Self)
        ensures
            r == (QemuExecResult { exec_time: time, ..self }),
    {
        let mut s = self;
        s.exec_time = time;
        s
    }

    /// A copy of the result.
    pub fn duplicate(&self) -> (r: Self)
        ensures
            r.tb_pc == self.tb_pc,
            r.next_pc == self.next_pc,
            r.cpu_state == self.cpu_state,
            r.tb_size == self.tb_size,
            r.mem_writes@ == self.mem_writes@,
            r.exec_time == self.exec_time,
    {
        QemuExecResult {
            tb_pc: self.tb_pc,
            next_pc: self.next_pc,
            cpu_state: self.cpu_state,
            tb_size: self.tb_size,
            mem_writes: copy_mem_writes(&self.mem_writes),
            exec_time: self.exec_time,
        }
    }
}

/// Configuration of a QEMU connection.
#[derive(Clone, Debug)]
pub struct QemuBridgeConfig {
    pub qemu_path: String,
    pub guest_arch: String,
    pub host_arch: String,
    pub system_mode: bool,
    pub memory_size: usize,
    pub additional_args: Vec<String>,
}

/// `qemu-system-<arch>`.
pub open spec fn qemu_path_for(arch: Seq<char>) -> Seq<char> {
    seq!['q', 'e', 'm', 'u', '-', 's', 'y', 's', 't', 'e', 'm', '-'] + arch
}

impl QemuBridgeConfig {
    /// The default configuration, except for the given QEMU path and guest.
    pub open spec fn is_default_with(&self, qemu_path: Seq<char>, guest_arch: Seq<char>) -> bool {
        &&& self.qemu_path@ == qemu_path
        &&& self.guest_arch@ == guest_arch
        &&& self.host_arch@ == seq!['x', '8', '6', '_', '6', '4']
        &&& !self.system_mode
        &&& self.memory_size == 256 * 1024 * 1024
        &&& self.additional_args@.len() == 0
    }

    /// System-mode QEMU for an AArch64 guest on an x86-64 host, 256 MiB.
    pub open spec fn is_default(&self) -> bool {
        self.is_default_with(
            qemu_path_for(seq!['a', 'a', 'r', 'c', 'h', '6', '4']),
            seq!['a', 'a', 'r', 'c', 'h', '6', '4'],
        )
    }

    /// The configuration for a guest architecture: the default with
    /// `qemu-system-<arch>` as the path.
    pub fn for_arch(arch: &str) -> (c: Self)
        ensures
            c.is_default_with(qemu_path_for(arch@), arch@),
    {
        proof {
            reveal_strlit("qemu-system-");
            reveal_strlit("x86_64");
            assert("qemu-system-"@ == seq!['q', 'e', 'm', 'u', '-', 's', 'y', 's', 't', 'e', 'm', '-']);
            assert("x86_64"@ == seq!['x', '8', '6', '_', '6', '4']);
        }
        let mut path = String::from_str("qemu-system-");
        path.append(arch);
        QemuBridgeConfig {
            qemu_path: path,
            guest_arch: String::from_str(arch),
            host_arch: String::from_str("x86_64"),
            system_mode: false,
            memory_size: 256 * 1024 * 1024,
            additional_args: Vec::new(),
        }
    }
}

impl Default for QemuBridgeConfig {
    fn default() -> (c: Self)
        ensures
            c.is_default(),
    {
        proof {
            reveal_strlit("aarch64");
            assert("aarch64"@ == seq!['a', 'a', 'r', 'c', 'h', '6', '4']);
        }
        Self::for_arch("aarch64")
    }
}

/// Size and instruction count of a TB known to the bridge.
#[derive(Clone, Copy, Debug)]
pub struct TbInfo {
    pub pc: u64,
    pub size: usize,
    pub icount: u64,
}

/// Bridge statistics.
#[derive(Clone, Copy, Debug)]
pub struct BridgeStats {
    pub execution_count: u64,
    pub total_exec_time: ExecTime,
    pub avg_exec_time: ExecTime,
    pub connected: bool,
}

/// Errors when talking to QEMU.
#[derive(Debug)]
pub enum QemuError {
    NotConnected,
    ConnectionFailed(String),
    ExecutionFailed(String),
    ProtocolError(String),
    Timeout,
    InvalidResponse(String),
}

impl QemuError {
    /// The message of the error, as it is displayed.
    pub open spec fn message_spec(&self) -> Seq<char> {
        match self {
            QemuError::NotConnected => seq![
                'N', 'o', 't', ' ', 'c', 'o', 'n', 'n', 'e', 'c', 't', 'e', 'd', ' ', 't', 'o', ' ',
                'Q', 'E', 'M', 'U',
            ],
            QemuError::ConnectionFailed(m) => seq![
                'C', 'o', 'n', 'n', 'e', 'c', 't', 'i', 'o', 'n', ' ', 'f', 'a', 'i', 'l', 'e', 'd',
                ':', ' ',
            ] + m@,
            QemuError::ExecutionFailed(m) => seq![
                'E', 'x', 'e', 'c', 'u', 't', 'i', 'o', 'n', ' ', 'f', 'a', 'i', 'l', 'e', 'd', ':',
                ' ',
            ] + m@,
            QemuError::ProtocolError(m) => seq![
                'P', 'r', 'o', 't', 'o', 'c', 'o', 'l', ' ', 'e', 'r', 'r', 'o', 'r', ':', ' ',
            ] + m@,
            QemuError::Timeout => seq![
                'O', 'p', 'e', 'r', 'a', 't', 'i', 'o', 'n', ' ', 't', 'i', 'm', 'e', 'd', ' ', 'o',
                'u', 't',
            ],
            QemuError::InvalidResponse(m) => seq![
                'I', 'n', 'v', 'a', 'l', 'i', 'd', ' ', 'r', 'e', 's', 'p', 'o', 'n', 's', 'e', ':',
                ' ',
            ] + m@,
        }
    }

    /// The message of the error, as it is displayed.
    pub fn message(&self) -> (r: String)
        ensures
            r@ == self.message_spec(),
    {
        proof {
            reveal_strlit("Not connected to QEMU");
            reveal_strlit("Connection failed: ");
            reveal_strlit("Execution failed: ");
            reveal_strlit("Protocol error: ");
            reveal_strlit("Operation timed out");
            reveal_strlit("Invalid response: ");
        }
        match self {
            QemuError::NotConnected => String::from_str("Not connected to QEMU"),
            QemuError::ConnectionFailed(m) => {
                let mut s = String::from_str("Connection failed: ");
                s.append(m.as_str());
                s
            },
            QemuError::ExecutionFailed(m) => {
                let mut s = String::from_str("Execution failed: ");
                s.append(m.as_str());
                s
            },
            QemuError::ProtocolError(m) => {
                let mut s = String::from_str("Protocol error: ");
                s.append(m.as_str());
                s
            },
            QemuError::Timeout => String::from_str("Operation timed out"),
            QemuError::InvalidResponse(m) => {
                let mut s = String::from_str("Invalid response: ");
                s.append(m.as_str());
                s
            },
        }
    }
}

/// `pc + 4`, wrapping, as the program counter after one instruction.
pub open spec fn pc_plus(pc: u64, n: u64) -> u64 {
    ((pc as nat + n as nat) % 0x1_0000_0000_0000_0000) as u64
}

/// The state with its program counter set to `pc`.
pub open spec fn with_pc(s: QemuCpuState, pc: u64) -> QemuCpuState {
    match s {
        QemuCpuState::Aarch64(a) => QemuCpuState::Aarch64(Aarch64CpuState { pc, ..a }),
        QemuCpuState::Riscv64(r) => QemuCpuState::Riscv64(RiscvCpuState { pc, ..r }),
    }
}

/// Size of the TB at `pc`: the recorded size, or one instruction.
pub open spec fn tb_size_for(cache: Map<u64, TbInfo>, pc: u64) -> usize {
    if cache.contains_key(pc) {
        cache[pc].size
    } else {
        4
    }
}

/// Bridge to a QEMU instance.
pub struct QemuBridge {
    config: QemuBridgeConfig,
    connected: bool,
    execution_count: u64,
    total_exec_time: ExecTime,
    tb_cache: HashMap<u64, TbInfo>,
}

impl QemuBridge {
    pub closed spec fn spec_config(&self) -> QemuBridgeConfig {
        self.config
    }

    pub closed spec fn spec_connected(&self) -> bool {
        self.connected
    }

    pub closed spec fn spec_execution_count(&self) -> u64 {
        self.execution_count
    }

    pub closed spec fn spec_total_exec_time(&self) -> ExecTime {
        self.total_exec_time
    }

    /// Known TBs by PC.
    pub closed spec fn spec_tb_cache(&self) -> Map<u64, TbInfo> {
        self.tb_cache@
    }

    /// No TB is ever recorded: the cache stays empty, so every TB counts as
    /// one instruction.
    #[verifier::type_invariant]
    spec fn no_known_tbs(self) -> bool {
        self.tb_cache@ == Map::<u64, TbInfo>::empty()
    }

    /// The result of running the TB at `pc` from `state`, apart from its time:
    /// one instruction is executed, and the TB's size is the recorded one.
    pub open spec fn exec_result_spec(&self, pc: u64, state: QemuCpuState, r: QemuExecResult) -> bool {
        let size = tb_size_for(self.spec_tb_cache(), pc);
        &&& r.tb_pc == pc
        &&& r.cpu_state == with_pc(state, pc_plus(pc, 4))
        &&& r.next_pc == pc_plus(pc, size as u64)
        &&& r.tb_size == size
        &&& r.mem_writes@.len() == 0
    }

    /// A disconnected bridge with no executions and no known TBs.
    pub fn new(config: QemuBridgeConfig) -> (b: Self)
        ensures
            b.spec_config() == config,
            !b.spec_connected(),
            b.spec_execution_count() == 0,
            b.spec_total_exec_time().nanos == 0,
            b.spec_tb_cache() == Map::<u64, TbInfo>::empty(),
    {
        QemuBridge {
            config,
            connected: false,
            execution_count: 0,
            total_exec_time: ExecTime::zero(),
            tb_cache: HashMap::new(),
        }
    }

    pub fn connect(&mut self) -> (r: Result<(), QemuError>)
        ensures
            r is Ok,
            final(self).spec_connected(),
            final(self).spec_config() == old(self).spec_config(),
            final(self).spec_execution_count() == old(self).spec_execution_count(),
            final(self).spec_total_exec_time() == old(self).spec_total_exec_time(),
            final(self).spec_tb_cache() == old(self).spec_tb_cache(),
    {
        proof {
            use_type_invariant(&*self);
        }
        self.connected = true;
        Ok(())
    }

    pub fn disconnect(&mut self)
        ensures
            !final(self).spec_connected(),
            final(self).spec_config() == old(self).spec_config(),
            final(self).spec_execution_count() == old(self).spec_execution_count(),
            final(self).spec_total_exec_time() == old(self).spec_total_exec_time(),
            final(self).spec_tb_cache() == old(self).spec_tb_cache(),
    {
        proof {
            use_type_invariant(&*self);
        }
        self.connected = false;
    }

    pub fn is_connected(&self) -> (r: bool)
        ensures
            r == self.spec_connected(),
    {
        self.connected
    }

    /// Runs the TB at `pc` in QEMU, timing it. Fails when not connected; then
    /// nothing changes. Otherwise one more execution is counted and its time
    /// is added to the total.
    pub fn execute_tb(&mut self, pc: u64, cpu_state: &QemuCpuState) -> (r: Result<
        QemuExecResult,
        QemuError,
    >)
        requires
            old(self).spec_connected() ==> old(self).spec_execution_count() < u64::MAX,
        ensures
            !old(self).spec_connected() ==> (r matches Err(QemuError::NotConnected) && *final(self)
                == *old(self)),
            old(self).spec_connected() ==> (r matches Ok(res) && old(self).exec_result_spec(
                pc,
                *cpu_state,
                res,
            ) && final(self).spec_execution_count() == old(self).spec_execution_count() + 1
                && final(self).spec_total_exec_time() == old(self).spec_total_exec_time().add_spec(
                res.exec_time,
            ) && final(self).spec_connected() && final(self).spec_config() == old(
                self,
            ).spec_config() && final(self).spec_tb_cache() == old(self).spec_tb_cache()
                && res.tb_size == 4),
    {
        proof {
            use_type_invariant(&*self);
        }
        if !self.connected {
            return Err(QemuError::NotConnected);
        }
        let start = now();
        let result = match cpu_state {
            QemuCpuState::Aarch64(_) => self.execute_aarch64_tb(pc, cpu_state),
            QemuCpuState::Riscv64(_) => self.execute_riscv_tb(pc, cpu_state),
        };
        let exec_time = elapsed_since(&start);
        self.execution_count += 1;
        self.total_exec_time = self.total_exec_time.add(exec_time);
        match result {
            Ok(r) => Ok(r.with_exec_time(exec_time)),
            Err(e) => Err(e),
        }
    }

    /// Size of the TB at `pc` from the cache, one instruction when unknown.
    fn cached_tb_size(&self, pc: u64) -> (r: usize)
        ensures
            r == tb_size_for(self.spec_tb_cache(), pc),
    {
        match self.tb_cache.get(&pc) {
            Some(info) => info.size,
            None => 4,
        }
    }

    /// Runs an AArch64 TB: the program counter of an AArch64 state advances
    /// by one instruction.
    pub fn execute_aarch64_tb(&mut self, pc: u64, cpu_state: &QemuCpuState) -> (r: Result<
        QemuExecResult,
        QemuError,
    >)
        ensures
            *final(self) == *old(self),
            r matches Ok(res) && res.exec_time.nanos == 0 && res.tb_pc == pc && res.cpu_state
                == (match *cpu_state {
                QemuCpuState::Aarch64(a) => QemuCpuState::Aarch64(
                    Aarch64CpuState { pc: pc_plus(pc, 4), ..a },
                ),
                other => other,
            }) && res.tb_size == tb_size_for(old(self).spec_tb_cache(), pc) && res.next_pc
                == pc_plus(pc, res.tb_size as u64) && res.mem_writes@.len() == 0 && res.tb_size
                == 4,
    {
        proof {
            use_type_invariant(&*self);
        }
        let mut result_state = *cpu_state;
        if let QemuCpuState::Aarch64(ref mut aarch64_state) = result_state {
            aarch64_state.pc = pc.wrapping_add(4);
        }
        let tb_size = self.cached_tb_size(pc);
        Ok(
            QemuExecResult::new(pc, result_state).with_next_pc(
                pc.wrapping_add(tb_size as u64),
            ).with_tb_size(tb_size),
        )
    }

    /// Runs a RISC-V TB: the program counter of a RISC-V state advances by
    /// one instruction.
    pub fn execute_riscv_tb(&mut self, pc: u64, cpu_state: &QemuCpuState) -> (r: Result<
        QemuExecResult,
        QemuError,
    >)
        ensures
            *final(self) == *old(self),
            r matches Ok(res) && res.exec_time.nanos == 0 && res.tb_pc == pc && res.cpu_state
                == (match *cpu_state {
                QemuCpuState::Riscv64(s) => QemuCpuState::Riscv64(
                    RiscvCpuState { pc: pc_plus(pc, 4), ..s },
                ),
                other => other,
            }) && res.tb_size == tb_size_for(old(self).spec_tb_cache(), pc) && res.next_pc
                == pc_plus(pc, res.tb_size as u64) && res.mem_writes@.len() == 0 && res.tb_size
                == 4,
    {
        proof {
            use_type_invariant(&*self);
        }
        let mut result_state = *cpu_state;
        if let QemuCpuState::Riscv64(ref mut riscv_state) = result_state {
            riscv_state.pc = pc.wrapping_add(4);
        }
        let tb_size = self.cached_tb_size(pc);
        Ok(
            QemuExecResult::new(pc, result_state).with_next_pc(
                pc.wrapping_add(tb_size as u64),
            ).with_tb_size(tb_size),
        )
    }

    /// Fails when not connected.
    pub fn sync_state(&mut self, cpu_state: &QemuCpuState) -> (r: Result<(), QemuError>)
        ensures
            *final(self) == *old(self),
            r is Ok <==> old(self).spec_connected(),
            r matches Err(e) ==> e is NotConnected,
    {
        if !self.connected {
            return Err(QemuError::NotConnected);
        }
        Ok(())
    }

    /// Executions, total time, mean time per execution and connection state.
    /// The mean divides by the count truncated to 32 bits.
    pub fn get_stats(&self) -> (r: BridgeStats)
        requires
            self.spec_execution_count() > 0 ==> self.spec_execution_count() % 0x1_0000_0000 != 0,
        ensures
            r.execution_count == self.spec_execution_count(),
            r.total_exec_time == self.spec_total_exec_time(),
            r.avg_exec_time.nanos == if self.spec_execution_count() > 0 {
                self.spec_total_exec_time().nanos / (self.spec_execution_count()
                    % 0x1_0000_0000) as u128
            } else {
                0
            },
            r.connected == self.spec_connected(),
    {
        let count = self.execution_count;
        assert(count as u32 == count % 0x1_0000_0000) by (bit_vector);
        BridgeStats {
            execution_count: self.execution_count,
            total_exec_time: self.total_exec_time,
            avg_exec_time: if self.execution_count > 0 {
                self.total_exec_time.div(self.execution_count as u32)
            } else {
                ExecTime::zero()
            },
            connected: self.connected,
        }
    }

    /// Zeroes the execution count and the total time.
    pub fn reset_stats(&mut self)
        ensures
            final(self).spec_execution_count() == 0,
            final(self).spec_total_exec_time().nanos == 0,
            final(self).spec_connected() == old(self).spec_connected(),
            final(self).spec_config() == old(self).spec_config(),
            final(self).spec_tb_cache() == old(self).spec_tb_cache(),
    {
        proof {
            use_type_invariant(&*self);
        }
        self.execution_count = 0;
        self.total_exec_time = ExecTime::zero();
    }
}

/// Stand-in bridge that answers with preset results.
pub struct StubQemuBridge {
    config: QemuBridgeConfig,
    connected: bool,
    execution_results: HashMap<u64, QemuExecResult>,
}

impl StubQemuBridge {
    pub closed spec fn spec_config(&self) -> QemuBridgeConfig {
        self.config
    }

    pub closed spec fn spec_connected(&self) -> bool {
        self.connected
    }

    /// Preset results by PC.
    pub closed spec fn spec_results(&self) -> Map<u64, QemuExecResult> {
        self.execution_results@
    }

    pub fn new(config: QemuBridgeConfig) -> (b: Self)
        ensures
            b.spec_config() == config,
            !b.spec_connected(),
            b.spec_results() == Map::<u64, QemuExecResult>::empty(),
    {
        StubQemuBridge { config, connected: false, execution_results: HashMap::new() }
    }

    /// Presets the result returned for the TB at `pc`.
    pub fn set_execution_result(&mut self, pc: u64, result: QemuExecResult)
        ensures
            final(self).spec_results() == old(self).spec_results().insert(pc, result),
            final(self).spec_connected() == old(self).spec_connected(),
            final(self).spec_config() == old(self).spec_config(),
    {
        self.execution_results.insert(pc, result);
    }

    pub fn connect(&mut self) -> (r: Result<(), QemuError>)
        ensures
            r is Ok,
            final(self).spec_connected(),
            final(self).spec_results() == old(self).spec_results(),
            final(self).spec_config() == old(self).spec_config(),
    {
        self.connected = true;
        Ok(())
    }

    pub fn disconnect(&mut self)
        ensures
            !final(self).spec_connected(),
            final(self).spec_results() == old(self).spec_results(),
            final(self).spec_config() == old(self).spec_config(),
    {
        self.connected = false;
    }

    pub fn is_connected(&self) -> (r: bool)
        ensures
            r == self.spec_connected(),
    {
        self.connected
    }

    /// The preset result for `pc`; without one, the unchanged state
    /// continuing at the next instruction. Fails when not connected.
    pub fn execute_tb(&mut self, pc: u64, cpu_state: &QemuCpuState) -> (r: Result<
        QemuExecResult,
        QemuError,
    >)
        ensures
            *final(self) == *old(self),
            !old(self).spec_connected() ==> r matches Err(QemuError::NotConnected),
            old(self).spec_connected() && old(self).spec_results().contains_key(pc) ==> (r matches Ok(
                res,
            ) && same_result(res, old(self).spec_results()[pc])),
            old(self).spec_connected() && !old(self).spec_results().contains_key(pc) ==> (r matches Ok(
                res,
            ) && res.tb_pc == pc && res.next_pc == pc_plus(pc, 4) && res.cpu_state == *cpu_state
                && res.tb_size == 0 && res.mem_writes@.len() == 0 && res.exec_time.nanos == 0),
    {
        if !self.connected {
            return Err(QemuError::NotConnected);
        }
        match self.execution_results.get(&pc) {
            Some(result) => Ok(result.duplicate()),
            None => Ok(QemuExecResult::new(pc, *cpu_state).with_next_pc(pc.wrapping_add(4))),
        }
    }
}

/// Two results agree in every field.
pub open spec fn same_result(a: QemuExecResult, b: QemuExecResult) -> bool {
    &&& a.tb_pc == b.tb_pc
    &&& a.next_pc == b.next_pc
    &&& a.cpu_state == b.cpu_state
    &&& a.tb_size == b.tb_size
    &&& a.mem_writes@ == b.mem_writes@
    &&& a.exec_time == b.exec_time
}

/// A bridge for the given guest architecture, with `qemu-system-<arch>`.
pub fn create_bridge(arch: &str) -> (r: Result<QemuBridge, QemuError>)
    ensures
        r matches Ok(b) && b.spec_config().is_default_with(qemu_path_for(arch@), arch@)
            && !b.spec_connected() && b.spec_execution_count() == 0
            && b.spec_total_exec_time().nanos == 0 && b.spec_tb_cache() == Map::<
            u64,
            TbInfo,
        >::empty(),
{
    Ok(QemuBridge::new(QemuBridgeConfig::for_arch(arch)))
}

/// A stub bridge for the given guest architecture, with `qemu-system-<arch>`.
pub fn create_stub_bridge(arch: &str) -> (r: StubQemuBridge)
    ensures
        r.spec_config().is_default_with(qemu_path_for(arch@), arch@),
        !r.spec_connected(),
        r.spec_results() == Map::<u64, QemuExecResult>::empty(),
{
    StubQemuBridge::new(QemuBridgeConfig::for_arch(arch))
}

} // verus!
