use std::collections::HashMap;

use tcg_rs::cpu::{
    compute_nzcv_add, compute_nzcv_logic, compute_nzcv_sub, eval_cond_from_packed,
    helper_lazy_nzcv_eval_cond, helper_lazy_nzcv_to_packed, vreg_hi_offset, vreg_lo_offset,
    xreg_offset, Aarch64Cpu, CC_OP_ADD32, CC_OP_ADD64, CC_OP_EAGER, CC_OP_LOGIC64, CC_OP_SUB32,
    CC_OP_SUB64,
};
use tcg_rs::exec::{AotTable, ExecStats, ExitReason, LlvmJit};
use tcg_rs::imm::{
    decode_bitmask_imm, fp_ldst_size, neon_movi_imm, vfp_expand_imm32, vfp_expand_imm64,
};
use tcg_rs::profile::{ProfileData, ProfileEntry, ProfileError, PROFILE_VERSION};
use tcg_rs::tb::{
    decode_tb_exit, encode_tb_exit, JumpCache, TranslationBlock, TB_EXIT_NOCHAIN, TB_HASH_SIZE,
};
use tcg_rs::tb_store::{install_translation, tb_find, TbStore};
use tcg_rs::text::{hex_diff, indexed_name};

const N: u64 = 1 << 31;
const Z: u64 = 1 << 30;
const C: u64 = 1 << 29;
const V: u64 = 1 << 28;

#[test]
fn nzcv_add_cases() {
    assert_eq!(compute_nzcv_add(1, 2, 3, true), 0);
    assert_eq!(compute_nzcv_add(u64::MAX, 1, 0, true), Z | C);
    assert_eq!(compute_nzcv_add(i64::MAX as u64, 1, 1u64 << 63, true), N | V);
    assert_eq!(compute_nzcv_add(0xffff_ffff, 1, 0x1_0000_0000, false), Z | C);
    assert_eq!(compute_nzcv_add(0x7fff_ffff, 1, 0x8000_0000, false), N | V);
}

#[test]
fn nzcv_sub_cases() {
    assert_eq!(compute_nzcv_sub(5, 5, 0, true), Z | C);
    assert_eq!(compute_nzcv_sub(3, 5, (3u64).wrapping_sub(5), true), N);
    assert_eq!(compute_nzcv_sub(1u64 << 63, 1, i64::MAX as u64, true), C | V);
    assert_eq!(compute_nzcv_sub(2, 1, 1, false), C);
}

#[test]
fn nzcv_logic_cases() {
    assert_eq!(compute_nzcv_logic(0, true), Z);
    assert_eq!(compute_nzcv_logic(1u64 << 63, true), N);
    assert_eq!(compute_nzcv_logic(0x1_0000_0000, false), Z);
    assert_eq!(compute_nzcv_logic(0x8000_0000, false), N);
}

#[test]
fn condition_codes() {
    // EQ / NE on Z
    assert_eq!(eval_cond_from_packed(Z, 0), 1);
    assert_eq!(eval_cond_from_packed(Z, 1), 0);
    // CS on C, HI on C && !Z
    assert_eq!(eval_cond_from_packed(C, 2), 1);
    assert_eq!(eval_cond_from_packed(C | Z, 8), 0);
    assert_eq!(eval_cond_from_packed(C, 8), 1);
    // GE: N == V, LT: N != V, GT: N == V && !Z
    assert_eq!(eval_cond_from_packed(N | V, 10), 1);
    assert_eq!(eval_cond_from_packed(N, 11), 1);
    assert_eq!(eval_cond_from_packed(0, 12), 1);
    assert_eq!(eval_cond_from_packed(Z, 12), 0);
    // AL and NV always hold
    assert_eq!(eval_cond_from_packed(0, 14), 1);
    assert_eq!(eval_cond_from_packed(N | Z | C | V, 15), 1);
}

#[test]
fn every_even_condition_is_the_complement_of_the_next() {
    for nzcv in 0u64..16 {
        let packed = nzcv << 28;
        for cond in (0u32..14).step_by(2) {
            assert_ne!(
                eval_cond_from_packed(packed, cond),
                eval_cond_from_packed(packed, cond + 1)
            );
        }
    }
}

#[test]
fn lazy_flags_match_eager_flags() {
    assert_eq!(helper_lazy_nzcv_to_packed(CC_OP_EAGER, C | V, 0, 0), C | V);
    assert_eq!(helper_lazy_nzcv_to_packed(CC_OP_ADD64, u64::MAX, 1, 0), Z | C);
    assert_eq!(helper_lazy_nzcv_to_packed(CC_OP_ADD32, 1, 2, 3), 0);
    assert_eq!(helper_lazy_nzcv_to_packed(CC_OP_SUB64, 5, 5, 0), Z | C);
    assert_eq!(helper_lazy_nzcv_to_packed(CC_OP_SUB32, 2, 1, 1), C);
    assert_eq!(helper_lazy_nzcv_to_packed(CC_OP_LOGIC64, 0, 0, 0), Z);
    assert_eq!(helper_lazy_nzcv_to_packed(99, 1, 2, 3), 0);
    // EQ after comparing equal values
    assert_eq!(helper_lazy_nzcv_eval_cond(CC_OP_SUB64, 7, 7, 0, 0), 1);
    assert_eq!(helper_lazy_nzcv_eval_cond(CC_OP_SUB64, 7, 8, u64::MAX, 0), 0);
}

#[test]
fn cpu_layout_offsets() {
    assert_eq!(xreg_offset(0), 0);
    assert_eq!(xreg_offset(30), 240);
    assert_eq!(vreg_lo_offset(0), 336);
    assert_eq!(vreg_hi_offset(0), 344);
    assert_eq!(vreg_hi_offset(31), 344 + 16 * 31);
    let cpu = Aarch64Cpu::new();
    assert_eq!(cpu.pc, 0);
    assert_eq!(cpu.cc_op, CC_OP_EAGER);
}

#[test]
fn bitmask_immediates() {
    assert_eq!(decode_bitmask_imm(true, 1, 0, 0), Some(1));
    assert_eq!(decode_bitmask_imm(false, 0, 0, 0b111100), Some(0x5555_5555));
    assert_eq!(decode_bitmask_imm(true, 0, 0, 0b111100), Some(0x5555_5555_5555_5555));
    assert_eq!(decode_bitmask_imm(true, 1, 1, 0), Some(0x8000_0000_0000_0000));
    assert_eq!(decode_bitmask_imm(false, 0, 0, 0b000111), Some(0xff));
    // all ones in the element is reserved
    assert_eq!(decode_bitmask_imm(true, 1, 0, 0b111111), None);
    // the 32-bit form keeps the low word of the 64-bit pattern
    assert_eq!(decode_bitmask_imm(false, 1, 1, 0), Some(0));
    assert_eq!(decode_bitmask_imm(false, 1, 0, 0), Some(1));
}

#[test]
fn vfp_immediates() {
    // 1.0
    assert_eq!(vfp_expand_imm64(0x70), 0x3ff0_0000_0000_0000);
    assert_eq!(vfp_expand_imm32(0x70), 0x3f80_0000);
    // -2.0
    assert_eq!(vfp_expand_imm64(0x80), 0xc000_0000_0000_0000);
    assert_eq!(vfp_expand_imm32(0x80), 0xc000_0000);
}

#[test]
fn fp_load_store_sizes() {
    assert_eq!(fp_ldst_size(0, 2), Some((4, true, false)));
    assert_eq!(fp_ldst_size(2, 0), Some((2, false, false)));
    assert_eq!(fp_ldst_size(3, 1), Some((3, false, true)));
    assert_eq!(fp_ldst_size(1, 2), None);
}

#[test]
fn tb_hash_and_limits() {
    let h = TranslationBlock::hash(0x1000, 0);
    assert!(h < TB_HASH_SIZE);
    assert_eq!(h, (0x1000u64.wrapping_mul(0x9e3779b97f4a7c15) as usize) & (TB_HASH_SIZE - 1));
    assert_eq!(TranslationBlock::max_insns(0), 512);
    assert_eq!(TranslationBlock::max_insns(0x0002_0010), 16);
}

#[test]
fn tb_exit_roundtrip() {
    let raw = encode_tb_exit(0x1000, 1);
    assert_eq!(raw, 0x1001);
    assert_eq!(decode_tb_exit(raw), (Some(0x1000), 1));
    assert_eq!(encode_tb_exit(0x1000, 5), 5);
    assert_eq!(decode_tb_exit(5), (None, 5));
    assert_eq!(decode_tb_exit(encode_tb_exit(0x2000, TB_EXIT_NOCHAIN)), (Some(0x2000), 2));
}

#[test]
fn jump_cache_read_after_write() {
    let mut jc = JumpCache::new();
    assert_eq!(jc.lookup(0x1000), None);
    jc.insert(0x1000, 7);
    assert_eq!(jc.lookup(0x1000), Some(7));
    jc.remove(0x1000);
    assert_eq!(jc.lookup(0x1000), None);
    jc.insert(0x2000, 9);
    jc.invalidate();
    assert_eq!(jc.lookup(0x2000), None);
}

fn translated(store: &mut TbStore, pc: u64, flags: u32) -> usize {
    let h = store.allocate(pc, flags, 0);
    {
        let tb = store.get_mut(h);
        tb.host_offset = 0x100 * h;
        tb.host_size = 16;
        tb.set_jmp_insn_offset(0, 0x10);
        tb.set_jmp_reset_offset(0, 0x14);
    }
    store.insert(h);
    h
}

#[test]
fn store_lookup_after_insert() {
    let mut store = TbStore::new();
    assert!(store.is_empty());
    let h = translated(&mut store, 0x4000, 0);
    assert_eq!(store.len(), 1);
    assert_eq!(store.lookup(0x4000, 0), Some(h));
    assert_eq!(store.lookup(0x4000, 1), None);
    assert_eq!(store.lookup(0x4004, 0), None);
    // An untranslated TB is not returned.
    let raw = store.allocate(0x5000, 0, 0);
    store.insert(raw);
    assert_eq!(store.lookup(0x5000, 0), None);
    assert_eq!(store.iter_all(), vec![1, 2]);
}

#[test]
fn store_chains_keep_every_tb() {
    let mut store = TbStore::new();
    let mut handles = Vec::new();
    for i in 0..100u64 {
        handles.push(translated(&mut store, 0x1000 + i * 4, 0));
    }
    for (i, h) in handles.iter().enumerate() {
        assert_eq!(store.lookup(0x1000 + i as u64 * 4, 0), Some(*h));
    }
}

#[test]
fn store_chaining_and_invalidation() {
    let mut store = TbStore::new();
    let mut stats = ExecStats::new();
    let a = translated(&mut store, 0x1000, 0);
    let b = translated(&mut store, 0x2000, 0);
    assert_eq!(store.tb_add_jump(&mut stats, a, 0, b), Some((0x10, 0x100 * b)));
    assert_eq!(stats.chain_patched, 1);
    assert_eq!(store.get(a).jmp.jmp_dest[0], Some(b));
    assert_eq!(store.get(b).jmp.jmp_list, vec![(a, 0)]);
    assert_eq!(store.tb_add_jump(&mut stats, a, 0, b), None);
    assert_eq!(stats.chain_already, 1);
    // slot 1 has no jump instruction
    assert_eq!(store.tb_add_jump(&mut stats, a, 1, b), None);

    let resets = store.invalidate(b);
    assert_eq!(resets, vec![(0x10, 0x14)]);
    assert!(store.get(b).invalid);
    assert_eq!(store.get(a).jmp.jmp_dest[0], None);
    assert!(store.get(b).jmp.jmp_list.is_empty());
    assert_eq!(store.lookup(0x2000, 0), None);
    assert_eq!(store.lookup(0x1000, 0), Some(a));
    // an invalid destination is never chained
    assert_eq!(store.tb_add_jump(&mut stats, a, 0, b), None);
}

#[test]
fn store_invalidate_removes_outgoing_edges() {
    let mut store = TbStore::new();
    let mut stats = ExecStats::new();
    let a = translated(&mut store, 0x1000, 0);
    let b = translated(&mut store, 0x2000, 0);
    store.tb_add_jump(&mut stats, a, 0, b);
    let resets = store.invalidate(a);
    assert!(resets.is_empty());
    assert!(store.get(b).jmp.jmp_list.is_empty());
    assert_eq!(store.get(a).jmp.jmp_dest, [None, None]);
}

#[test]
fn store_flush_empties() {
    let mut store = TbStore::default();
    translated(&mut store, 0x1000, 0);
    store.flush();
    assert!(store.is_empty());
    assert_eq!(store.lookup(0x1000, 0), None);
}

#[test]
fn tb_find_uses_cache_then_table() {
    let mut store = TbStore::new();
    let mut jc = JumpCache::new();
    let mut stats = ExecStats::new();
    assert_eq!(tb_find(&store, &mut jc, &mut stats, 0x1000, 0), None);
    assert_eq!(stats.translate, 1);
    let h = translated(&mut store, 0x1000, 0);
    assert_eq!(tb_find(&store, &mut jc, &mut stats, 0x1000, 0), Some(h));
    assert_eq!(stats.ht_hit, 1);
    assert_eq!(tb_find(&store, &mut jc, &mut stats, 0x1000, 0), Some(h));
    assert_eq!(stats.jc_hit, 1);
    assert_eq!(stats.total_lookups(), 3);
}

#[test]
fn install_translation_links_the_tb() {
    let mut store = TbStore::new();
    let mut jc = JumpCache::new();
    let h = store.allocate(0x3000, 0, 0);
    let offsets = vec![(0usize, 0x20usize, 0x24usize), (5, 1, 2), (1, 0x30, 0x34)];
    install_translation(&mut store, &mut jc, h, 12, 0x400, 64, &offsets, false);
    let tb = store.get(h);
    assert_eq!(tb.size, 12);
    assert_eq!(tb.host_offset, 0x400);
    assert_eq!(tb.jmp_insn_offset, [Some(0x20), Some(0x30)]);
    assert_eq!(tb.jmp_reset_offset, [Some(0x24), Some(0x34)]);
    assert_eq!(store.lookup(0x3000, 0), Some(h));
    assert_eq!(jc.lookup(0x3000), Some(h));

    let h2 = store.allocate(0x3100, 0, 0);
    install_translation(&mut store, &mut jc, h2, 4, 0x500, 8, &offsets, true);
    assert_eq!(store.get(h2).jmp_insn_offset, [None, None]);
}

#[test]
fn exec_stats_and_exit_reason() {
    let s = ExecStats::default();
    assert_eq!(s.total_lookups(), 0);
    assert_eq!(ExitReason::Exit(3), ExitReason::Exit(3));
    assert_ne!(ExitReason::Exit(3), ExitReason::BufferFull);
}

#[test]
fn aot_table_lookup() {
    let mut funcs = HashMap::new();
    funcs.insert(0x1000u64, 0xdead_0000u64);
    let table = AotTable::new(funcs);
    assert_eq!(table.lookup(0x1000), Some(0xdead_0000));
    assert_eq!(table.lookup(0x2000), None);
}

#[test]
fn llvm_tb_names_are_distinct() {
    let mut jit = LlvmJit::new();
    assert_eq!(jit.next_tb_name(), "tb_0");
    assert_eq!(jit.next_tb_name(), "tb_1");
    assert_eq!(jit.next_tb_name(), "tb_2");
}

#[test]
fn profile_roundtrip() {
    let data = ProfileData {
        threshold: 10,
        entries: vec![
            ProfileEntry { file_offset: 0x40, exec_count: 12 },
            ProfileEntry { file_offset: 0x1_0000_0000, exec_count: u64::MAX },
        ],
    };
    let bytes = data.to_bytes();
    assert_eq!(&bytes[0..8], b"TCGPROF\0");
    assert_eq!(bytes.len(), 8 + 4 + 4 + 8 + 2 * 16);
    let back = ProfileData::from_bytes(&bytes).unwrap();
    assert_eq!(back.threshold, 10);
    assert_eq!(back.entries.len(), 2);
    assert_eq!(back.entries[1].file_offset, 0x1_0000_0000);
    assert_eq!(back.entries[1].exec_count, u64::MAX);
    let hot = data.hot_offsets();
    assert!(hot.contains(&0x40) && hot.contains(&0x1_0000_0000));
}

#[test]
fn profile_errors() {
    let data = ProfileData { threshold: 1, entries: vec![ProfileEntry { file_offset: 1, exec_count: 2 }] };
    let bytes = data.to_bytes();
    assert_eq!(ProfileData::from_bytes(&bytes[..bytes.len() - 1]).unwrap_err(), ProfileError::Truncated);
    let mut bad = bytes.clone();
    bad[0] = b'X';
    assert_eq!(ProfileData::from_bytes(&bad).unwrap_err(), ProfileError::BadMagic);
    let mut old = bytes.clone();
    old[8] = (PROFILE_VERSION + 1) as u8;
    assert_eq!(ProfileData::from_bytes(&old).unwrap_err(), ProfileError::BadVersion);
    assert_eq!(ProfileData::from_bytes(&bytes[..4]).unwrap_err(), ProfileError::Truncated);
}

#[test]
fn text_helpers() {
    assert_eq!(hex_diff("X1", 1, 2, 16), "X1: 0000000000000001 vs 0000000000000002");
    assert_eq!(indexed_name("x", 12), "x12");
}

use tcg_rs::exec_loop::{ExecLoop, LoopAction, Pending};

fn install(store: &mut TbStore, jc: &mut JumpCache, pc: u64, host: usize) -> usize {
    let h = store.allocate(pc, 0, 0);
    install_translation(store, jc, h, 4, host, 32, &vec![(0, host + 8, host + 12)], false);
    h
}

#[test]
fn exec_loop_translates_chains_and_exits() {
    let mut store = TbStore::new();
    let mut jc = JumpCache::new();
    let mut stats = ExecStats::new();
    let mut lp = ExecLoop::new(0);

    assert_eq!(lp.on_fetch(&store, &mut jc, &mut stats, 0x1000, 0), LoopAction::Translate { pc: 0x1000, flags: 0 });
    let a = install(&mut store, &mut jc, 0x1000, 0x100);
    assert_eq!(lp.on_translated(&mut store, &mut stats, Some(a)), LoopAction::Run { tb: a });

    // slot 0 exit to a block that is not translated yet
    assert_eq!(
        lp.on_ran(&mut store, &mut jc, &mut stats, None, 0, 0x2000, 0),
        LoopAction::Translate { pc: 0x2000, flags: 0 }
    );
    assert_eq!(lp.pending, Pending::Chain { src: a, slot: 0 });
    let b = install(&mut store, &mut jc, 0x2000, 0x200);
    assert_eq!(
        lp.on_translated(&mut store, &mut stats, Some(b)),
        LoopAction::Next { patch: Some((0x108, 0x200)) }
    );
    assert_eq!(store.get(a).jmp.jmp_dest[0], Some(b));

    // the hint runs b without a lookup
    assert_eq!(lp.on_fetch(&store, &mut jc, &mut stats, 0x2000, 0), LoopAction::Run { tb: b });
    assert_eq!(stats.hint_used, 1);

    // indirect exit from b back to a: found through the jump cache, then cached on b
    assert_eq!(lp.on_ran(&mut store, &mut jc, &mut stats, Some(b), 2, 0x1000, 0), LoopAction::Next { patch: None });
    assert_eq!(store.get(b).exit_target, a);
    assert!(store.get(a).indirect_target);
    assert_eq!(lp.on_ran(&mut store, &mut jc, &mut stats, Some(b), 2, 0x1000, 0), LoopAction::Next { patch: None });
    assert_eq!(stats.exit_target_hit, 1);
    assert_eq!(stats.nochain_exit, 2);

    // a real exit leaves the loop
    assert_eq!(
        lp.on_ran(&mut store, &mut jc, &mut stats, None, 5, 0x2000, 0),
        LoopAction::Stop(ExitReason::Exit(5))
    );
    assert_eq!(stats.real_exit, 1);
    assert_eq!(stats.chain_exit, [1, 0]);
}

#[test]
fn exec_loop_stops_at_tb_limit() {
    let store = TbStore::new();
    let mut jc = JumpCache::new();
    let mut stats = ExecStats::new();
    let mut lp = ExecLoop::new(2);
    lp.on_fetch(&store, &mut jc, &mut stats, 0x10, 0);
    lp.on_fetch(&store, &mut jc, &mut stats, 0x20, 0);
    assert_eq!(lp.on_fetch(&store, &mut jc, &mut stats, 0x30, 0), LoopAction::Stop(ExitReason::Exit(0xff)));
    assert_eq!(lp.tb_count, 3);
    assert_eq!(&lp.last_pcs[0..3], &[0x10, 0x20, 0x30]);
    assert_eq!(stats.loop_iters, 3);
}

#[test]
fn exec_loop_buffer_full() {
    let mut store = TbStore::new();
    let mut stats = ExecStats::new();
    let mut lp = ExecLoop::new(0);
    assert_eq!(lp.on_translated(&mut store, &mut stats, None), LoopAction::Stop(ExitReason::BufferFull));
}

use tcg_rs::cpu::{LazyNzcvKind, CC_OP_LOGIC32};
use tcg_rs::exec_loop::PerCpuState;

#[test]
fn lazy_kind_cc_ops() {
    assert_eq!(LazyNzcvKind::Add { sf: false }.cc_op(), CC_OP_ADD32);
    assert_eq!(LazyNzcvKind::Add { sf: true }.cc_op(), CC_OP_ADD64);
    assert_eq!(LazyNzcvKind::Sub { sf: false }.cc_op(), CC_OP_SUB32);
    assert_eq!(LazyNzcvKind::Sub { sf: true }.cc_op(), CC_OP_SUB64);
    assert_eq!(LazyNzcvKind::Logic { sf: false }.cc_op(), CC_OP_LOGIC32);
    assert_eq!(LazyNzcvKind::Logic { sf: true }.cc_op(), CC_OP_LOGIC64);
    // recording a 32-bit add lazily and evaluating later gives the eager flags
    let kind = LazyNzcvKind::Add { sf: false };
    let (a, b) = (0xdead_0000_ffff_ffffu64, 1u64);
    let r = a.wrapping_add(b);
    assert_eq!(
        helper_lazy_nzcv_to_packed(kind.cc_op(), a & 0xffff_ffff, b, r & 0xffff_ffff),
        compute_nzcv_add(a, b, r, false)
    );
}

#[test]
fn per_cpu_state_starts_empty() {
    let p = PerCpuState::new();
    assert_eq!(p.jump_cache.lookup(0x1234), None);
    assert_eq!(p.stats.total_lookups(), 0);
}

fn movi_insn(op: u32, cmode: u32, imm8: u32) -> u32 {
    0x0f00_0400 | (op << 29) | (cmode << 12) | ((imm8 >> 5) << 16) | ((imm8 & 0x1f) << 5)
}

#[test]
fn movi_immediate_shifted_words_and_halfwords() {
    assert_eq!(neon_movi_imm(movi_insn(0, 0b0000, 0x12)), 0x0000_0012_0000_0012);
    assert_eq!(neon_movi_imm(movi_insn(0, 0b0010, 0x12)), 0x0000_1200_0000_1200);
    assert_eq!(neon_movi_imm(movi_insn(0, 0b0100, 0x12)), 0x0012_0000_0012_0000);
    assert_eq!(neon_movi_imm(movi_insn(0, 0b0110, 0x12)), 0x1200_0000_1200_0000);
    assert_eq!(neon_movi_imm(movi_insn(0, 0b1000, 0xab)), 0x00ab_00ab_00ab_00ab);
    assert_eq!(neon_movi_imm(movi_insn(0, 0b1010, 0xab)), 0xab00_ab00_ab00_ab00);
}

#[test]
fn movi_immediate_shifting_ones_and_inverted() {
    assert_eq!(neon_movi_imm(movi_insn(0, 0b1100, 0x12)), 0x0000_12ff_0000_12ff);
    assert_eq!(neon_movi_imm(movi_insn(0, 0b1101, 0x12)), 0x0012_ffff_0012_ffff);
    assert_eq!(neon_movi_imm(movi_insn(1, 0b0000, 0x12)), 0xffff_ffed_ffff_ffed);
    assert_eq!(neon_movi_imm(movi_insn(1, 0b1100, 0x12)), 0xffff_ed00_ffff_ed00);
    assert_eq!(neon_movi_imm(movi_insn(1, 0b1000, 0xab)), 0xff54_ff54_ff54_ff54);
}

#[test]
fn movi_immediate_bytes_masks_and_fmov() {
    assert_eq!(neon_movi_imm(movi_insn(0, 0b1110, 0xab)), 0xabab_abab_abab_abab);
    assert_eq!(neon_movi_imm(movi_insn(1, 0b1110, 0xa5)), 0xff00_ff00_00ff_00ff);
    assert_eq!(neon_movi_imm(movi_insn(1, 0b1110, 0x00)), 0);
    assert_eq!(neon_movi_imm(movi_insn(1, 0b1110, 0xff)), u64::MAX);
    assert_eq!(neon_movi_imm(movi_insn(0, 0b1111, 0x70)), 0x3f80_0000_3f80_0000);
    assert_eq!(neon_movi_imm(movi_insn(1, 0b1111, 0x70)), 0x3ff0_0000_0000_0000);
}
