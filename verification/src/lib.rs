//! Verified core of a TCG-style dynamic binary translator.

pub mod cpu;
pub mod imm;
pub mod tb;
pub mod text;
pub mod qemu_cpu_state;
pub mod time;
pub mod qemu_bridge;
pub mod sync;
pub mod mixed_executor;
pub mod profile;
pub mod exec;
pub mod tb_store;
pub mod exec_loop;
pub mod lanes;
pub mod neon;
pub mod alu;
pub mod fp_decode;
pub mod fp_data;
pub mod ldst_multiple;
pub mod permute;
pub mod shift_imm;
pub mod three_same;
pub mod two_reg_misc;
