use tcg_rs::neon::{
    helper_abs32, helper_add32, helper_add8, helper_addp32, helper_addp8, helper_addv32, helper_addv8, helper_bif, helper_bit, helper_bsl, helper_cmeq16, helper_cmeq16_zero, helper_cmeq32, helper_cmeq32_zero, helper_cmeq8, helper_cmge32, helper_cmge_scalar, helper_cmgt32, helper_cmgt64, helper_cmgt8, helper_cmgt_scalar, helper_cmhi8, helper_cmhs32, helper_cmhs8, helper_cmle_scalar, helper_cmlt32_zero, helper_cmtst16, helper_cmtst32, helper_cmtst8, helper_cnt8, helper_ext8, helper_mla32, helper_mla32_elem, helper_mls32, helper_mul32, helper_mul32_elem, helper_neg16, helper_neg32, helper_neg8, helper_rev64_16, helper_rev64_2s, helper_rev64_4h, helper_saddw16_hi, helper_saddw16_lo, helper_saddw32_hi, helper_saddw32_lo, helper_shl16, helper_shl32, helper_shl64, helper_shl8, helper_shrn8, helper_smax32, helper_smaxv16_pair, helper_smaxv32_reduce, helper_smin32, helper_sminv16_pair, helper_sminv32_reduce, helper_smlal32_hi, helper_smlal32_lo, helper_smull32_hi, helper_smull32_lo, helper_sshl32, helper_sshl64, helper_sshll16, helper_sshll8, helper_sshr16, helper_sshr32, helper_sshr8, helper_ssra32, helper_ssubw16_hi, helper_ssubw16_lo, helper_sub32, helper_sub8, helper_tbl1, helper_tbl2, helper_uaddw16_hi, helper_uaddw16_lo, helper_umax32, helper_umaxp8, helper_umaxv32_reduce, helper_umin32, helper_uminp8, helper_uminv32_reduce, helper_ushl32, helper_ushl64, helper_ushll16, helper_ushll8, helper_ushr16, helper_ushr32, helper_ushr64, helper_ushr8, helper_usubl16_hi, helper_usubl16_lo, helper_uzp1_16, helper_uzp1_32, helper_uzp1_8, helper_uzp2_16, helper_uzp2_32, helper_uzp2_8, helper_xtn16, helper_xtn32, helper_xtn8, helper_zip1_16, helper_zip1_8, helper_zip2_16, helper_zip2_8,
};

#[test]
fn simd_cmeq8() {
    assert_eq!(helper_cmeq8(0x10283840506f7f8, 0x102008405fff708), 0xffff00ffff00ff00);
}

#[test]
fn simd_cmtst8() {
    assert_eq!(helper_cmtst8(0x10283840506f7f8, 0x102008405fff708), 0xffff00ffffffffff);
}

#[test]
fn simd_cmhs8() {
    assert_eq!(helper_cmhs8(0x10283840506f7f8, 0x102008405fff708), 0xffffffffff00ffff);
}

#[test]
fn simd_cmhi8() {
    assert_eq!(helper_cmhi8(0x10283840506f7f8, 0x102008405fff708), 0xff00000000ff);
}

#[test]
fn simd_cmgt8() {
    assert_eq!(helper_cmgt8(0x10283840506f7f8, 0x102008405fff708), 0xff0000);
}

#[test]
fn simd_add8() {
    assert_eq!(helper_add8(0x10283840506f7f8, 0x102008405fff708), 0x20483080a05ee00);
}

#[test]
fn simd_sub8() {
    assert_eq!(helper_sub8(0x10283840506f7f8, 0x102008405fff708), 0x8300000700f0);
}

#[test]
fn simd_neg8() {
    assert_eq!(helper_neg8(0x10283840506f7f8), 0xfffe7d7cfbfa0908);
}

#[test]
fn simd_shl8() {
    assert_eq!(helper_shl8(0x10283840506f7f8, 3), 0x81018202830b8c0);
}

#[test]
fn simd_ushr8() {
    assert_eq!(helper_ushr8(0x10283840506f7f8, 3), 0x101000001e1f);
}

#[test]
fn simd_sshr8() {
    assert_eq!(helper_sshr8(0x10283840506f7f8, 3), 0xf0f00000feff);
}

#[test]
fn simd_cmeq16() {
    assert_eq!(helper_cmeq16(0x10283840506f7f8, 0x102008405fff708), 0xffff000000000000);
}

#[test]
fn simd_cmtst16() {
    assert_eq!(helper_cmtst16(0x10283840506f7f8, 0x102008405fff708), 0xffffffffffffffff);
}

#[test]
fn simd_shl16() {
    assert_eq!(helper_shl16(0x10283840506f7f8, 5), 0x20407080a0c0ff00);
}

#[test]
fn simd_ushr16() {
    assert_eq!(helper_ushr16(0x10283840506f7f8, 5), 0x8041c002807bf);
}

#[test]
fn simd_sshr16() {
    assert_eq!(helper_sshr16(0x10283840506f7f8, 5), 0x8fc1c0028ffbf);
}

#[test]
fn simd_umaxp8() {
    assert_eq!(helper_umaxp8(0x10283840506f7f8, 0x102008405fff708), 0x284fff7028406f8);
}

#[test]
fn simd_uminp8() {
    assert_eq!(helper_uminp8(0x10283840506f7f8, 0x102008405fff708), 0x1000508018305f7);
}

#[test]
fn simd_addp8() {
    assert_eq!(helper_addp8(0x10283840506f7f8, 0x102008405fff708), 0x38404ff03070bef);
}

#[test]
fn simd_uzp1_8() {
    assert_eq!(helper_uzp1_8(0x10283840506f7f8, 0x102008405fff708), 0x284ff08028406f8);
}

#[test]
fn simd_uzp2_8() {
    assert_eq!(helper_uzp2_8(0x10283840506f7f8, 0x102008405fff708), 0x10005f7018305f7);
}

#[test]
fn simd_zip1_8() {
    assert_eq!(helper_zip1_8(0x10283840506f7f8, 0x102008405fff708), 0x505ff06f7f708f8);
}

#[test]
fn simd_zip2_8() {
    assert_eq!(helper_zip2_8(0x10283840506f7f8, 0x102008405fff708), 0x101020200838484);
}

#[test]
fn simd_shrn8() {
    assert_eq!(helper_shrn8(0x10283840506f7f8, 4), 0x1038507f);
}

#[test]
fn simd_xtn8() {
    assert_eq!(helper_xtn8(0x10283840506f7f8), 0x28406f8);
}

#[test]
fn simd_ext8() {
    assert_eq!(helper_ext8(0x10283840506f7f8, 0x102008405fff708, 3), 0xfff7080102838405);
}

#[test]
fn simd_tbl1() {
    assert_eq!(helper_tbl1(0x10283840506f7f8, 0x102008405fff708, 0x200f080701001f10), 0x10801f7f80000);
}

#[test]
fn simd_tbl2() {
    assert_eq!(helper_tbl2(0x10283840506f7f8, 0x102008405fff708, 0x1111222233334444, 0x5555666677778888, 0x200f080701001f10), 0x10801f7f85544);
}

#[test]
fn simd_cnt8() {
    assert_eq!(helper_cnt8(0x10283840506f7f8), 0x101030202020705);
}

#[test]
fn simd_addv8() {
    assert_eq!(helper_addv8(0x10283840506f7f8), 0x4);
}

#[test]
fn simd_cmeq16_zero() {
    assert_eq!(helper_cmeq16_zero(0x0000_1234_0000_5678), 0xffff0000ffff0000);
}

#[test]
fn simd_uzp1_16() {
    assert_eq!(helper_uzp1_16(0x10283840506f7f8, 0x102008405fff708), 0x84f7088384f7f8);
}

#[test]
fn simd_uzp2_16() {
    assert_eq!(helper_uzp2_16(0x10283840506f7f8, 0x102008405fff708), 0x10205ff01020506);
}

#[test]
fn simd_zip1_16() {
    assert_eq!(helper_zip1_16(0x10283840506f7f8, 0x102008405fff708), 0x5ff0506f708f7f8);
}

#[test]
fn simd_zip2_16() {
    assert_eq!(helper_zip2_16(0x10283840506f7f8, 0x102008405fff708), 0x102010200848384);
}

#[test]
fn simd_rev64_16() {
    assert_eq!(helper_rev64_16(0x10283840506f7f8), 0xf7f8050683840102);
}

#[test]
fn simd_rev64_4h() {
    assert_eq!(helper_rev64_4h(0x10283840506f7f8), 0xf7f8050683840102);
}

#[test]
fn simd_neg16() {
    assert_eq!(helper_neg16(0x10283840506f7f8), 0xfefe7c7cfafa0808);
}

#[test]
fn simd_xtn16() {
    assert_eq!(helper_xtn16(0x10283840506f7f8), 0x8384f7f8);
}

#[test]
fn simd_add32() {
    assert_eq!(helper_add32(0x10283840506f7f8, 0x102008405fff708), 0x20484080b06ef00);
}

#[test]
fn simd_sub32() {
    assert_eq!(helper_sub32(0x10283840506f7f8, 0x102008405fff708), 0x8300ff0700f0);
}

#[test]
fn simd_mul32() {
    assert_eq!(helper_mul32(0x10283840506f7f8, 0x102008405fff708), 0x1053d010b98007c0);
}

#[test]
fn simd_umax32() {
    assert_eq!(helper_umax32(0x10283840506f7f8, 0x102008405fff708), 0x102838405fff708);
}

#[test]
fn simd_umin32() {
    assert_eq!(helper_umin32(0x10283840506f7f8, 0x102008405fff708), 0x10200840506f7f8);
}

#[test]
fn simd_smax32() {
    assert_eq!(helper_smax32(0x10283840506f7f8, 0x102008405fff708), 0x102838405fff708);
}

#[test]
fn simd_smin32() {
    assert_eq!(helper_smin32(0x10283840506f7f8, 0x102008405fff708), 0x10200840506f7f8);
}

#[test]
fn simd_cmeq32() {
    assert_eq!(helper_cmeq32(0x1234_0000_0001, 0x1234_0000_0002), 0xffffffff00000000);
}

#[test]
fn simd_cmhs32() {
    assert_eq!(helper_cmhs32(0x10283840506f7f8, 0x102008405fff708), 0xffffffff00000000);
}

#[test]
fn simd_cmgt32() {
    assert_eq!(helper_cmgt32(0x10283840506f7f8, 0x102008405fff708), 0xffffffff00000000);
}

#[test]
fn simd_cmge32() {
    assert_eq!(helper_cmge32(0x10283840506f7f8, 0x10283840506f7f8), 0xffffffffffffffff);
}

#[test]
fn simd_cmtst32() {
    assert_eq!(helper_cmtst32(0x0000_0001_0000_0002, 0x0000_0001_0000_0001), 0xffffffff00000000);
}

#[test]
fn simd_addp32() {
    assert_eq!(helper_addp32(0x10283840506f7f8, 0x102008405fff708), 0x701f78c06097b7c);
}

#[test]
fn simd_abs32() {
    assert_eq!(helper_abs32(0x8000_0000_ffff_fff6), 0x800000000000000a);
}

#[test]
fn simd_neg32() {
    assert_eq!(helper_neg32(0x0000_0001_0000_0000), 0xffffffff00000000);
}

#[test]
fn simd_shl32() {
    assert_eq!(helper_shl32(0x10283840506f7f8, 4), 0x10283840506f7f80);
}

#[test]
fn simd_ushr32() {
    assert_eq!(helper_ushr32(0x10283840506f7f8, 4), 0x10283800506f7f);
}

#[test]
fn simd_sshr32() {
    assert_eq!(helper_sshr32(0x10283840506f7f8, 4), 0x10283800506f7f);
}

#[test]
fn simd_ushr64() {
    assert_eq!(helper_ushr64(0x10283840506f7f8, 64), 0x0);
}

#[test]
fn simd_ushr64_small() {
    assert_eq!(helper_ushr64(0x10283840506f7f8, 8), 0x10283840506f7);
}

#[test]
fn simd_cmeq32_zero() {
    assert_eq!(helper_cmeq32_zero(0x0000_0000_0000_0005), 0xffffffff00000000);
}

#[test]
fn simd_cmlt32_zero() {
    assert_eq!(helper_cmlt32_zero(0x8000_0000_7fff_ffff), 0xffffffff00000000);
}

#[test]
fn simd_uzp2_32() {
    assert_eq!(helper_uzp2_32(0x10283840506f7f8, 0x102008405fff708), 0x102008401028384);
}

#[test]
fn simd_uzp1_32() {
    assert_eq!(helper_uzp1_32(0x10283840506f7f8, 0x102008405fff708), 0x5fff7080506f7f8);
}

#[test]
fn simd_xtn32() {
    assert_eq!(helper_xtn32(0x10283840506f7f8, 0x102008405fff708), 0x5fff7080506f7f8);
}

#[test]
fn simd_rev64_2s() {
    assert_eq!(helper_rev64_2s(0x10283840506f7f8), 0x506f7f801028384);
}

#[test]
fn simd_mul32_elem() {
    assert_eq!(helper_mul32_elem(0x10283840506f7f8, 3), 0x3078a8c0f14e7e8);
}

#[test]
fn simd_mla32_elem() {
    assert_eq!(helper_mla32_elem(0x0000_0001_0000_0002, 0x10283840506f7f8, 3), 0x3078a8d0f14e7ea);
}

#[test]
fn simd_mla32() {
    assert_eq!(helper_mla32(0x0000_0001_0000_0002, 0x10283840506f7f8, 0x102008405fff708), 0x1053d011b98007c2);
}

#[test]
fn simd_mls32() {
    assert_eq!(helper_mls32(0x0000_0001_0000_0002, 0x10283840506f7f8, 0x102008405fff708), 0xefac2ff1467ff842);
}

#[test]
fn simd_addv32() {
    assert_eq!(helper_addv32(0x10283840506f7f8, 0x102008405fff708), 0xd0b7308);
}

#[test]
fn simd_umaxv32() {
    assert_eq!(helper_umaxv32_reduce(0x10283840506f7f8), 0x506f7f8);
}

#[test]
fn simd_uminv32() {
    assert_eq!(helper_uminv32_reduce(0x10283840506f7f8), 0x1028384);
}

#[test]
fn simd_smaxv32() {
    assert_eq!(helper_smaxv32_reduce(0x10283840506f7f8), 0x506f7f8);
}

#[test]
fn simd_sminv32() {
    assert_eq!(helper_sminv32_reduce(0x10283840506f7f8), 0x1028384);
}

#[test]
fn simd_cmgt64() {
    assert_eq!(helper_cmgt64(1, 0xffff_ffff_ffff_ffff), 0xffffffffffffffff);
}

#[test]
fn simd_cmge_scalar() {
    assert_eq!(helper_cmge_scalar(0), 0xffffffffffffffff);
}

#[test]
fn simd_cmgt_scalar() {
    assert_eq!(helper_cmgt_scalar(0), 0x0);
}

#[test]
fn simd_cmle_scalar() {
    assert_eq!(helper_cmle_scalar(0x8000_0000_0000_0000), 0xffffffffffffffff);
}

#[test]
fn simd_bit() {
    assert_eq!(helper_bit(0xff00, 0x0ff0, 0x00ff), 0xfff0);
}

#[test]
fn simd_bif() {
    assert_eq!(helper_bif(0xff00, 0x0ff0, 0x00ff), 0xf00);
}

#[test]
fn simd_bsl() {
    assert_eq!(helper_bsl(0x00ff, 0xff00, 0x0ff0), 0xf00);
}

#[test]
fn simd_ushl32() {
    assert_eq!(helper_ushl32(0x10283840506f7f8, 0xfd00000004), 0x205070506f7f80);
}

#[test]
fn simd_sshl32() {
    assert_eq!(helper_sshl32(0x10283840506f7f8, 0xfd00000004), 0x205070506f7f80);
}

#[test]
fn simd_ushl64() {
    assert_eq!(helper_ushl64(0x10283840506f7f8, 0xffff_ffff_ffff_fff8), 0x10283840506f7);
}

#[test]
fn simd_sshl64() {
    assert_eq!(helper_sshl64(0x8000_0000_0000_0000, 0xffff_ffff_ffff_ffc0), 0xffffffffffffffff);
}

#[test]
fn simd_shl64() {
    assert_eq!(helper_shl64(0x10283840506f7f8, 4), 0x10283840506f7f80);
}

#[test]
fn simd_ushll8() {
    assert_eq!(helper_ushll8(0x10283840506f7f8, 2), 0x14001803dc03e0);
}

#[test]
fn simd_sshll8() {
    assert_eq!(helper_sshll8(0x10283840506f7f8, 2), 0x140018ffdcffe0);
}

#[test]
fn simd_sshll16() {
    assert_eq!(helper_sshll16(0x10283840506f7f8, 3), 0x2830ffffbfc0);
}

#[test]
fn simd_ushll16() {
    assert_eq!(helper_ushll16(0x10283840506f7f8, 3), 0x28300007bfc0);
}

#[test]
fn simd_usubl16_lo() {
    assert_eq!(helper_usubl16_lo(0x10283840506f7f8, 0x102008405fff708), 0xffffff07000000f0);
}

#[test]
fn simd_usubl16_hi() {
    assert_eq!(helper_usubl16_hi(0x10283840506f7f8, 0x102008405fff708), 0x8300);
}

#[test]
fn simd_uaddw16_lo() {
    assert_eq!(helper_uaddw16_lo(0x10283840506f7f8, 0x102008405fff708), 0x10289830507ef00);
}

#[test]
fn simd_uaddw16_hi() {
    assert_eq!(helper_uaddw16_hi(0x10283840506f7f8, 0x102008405fff708), 0x10284860506f87c);
}

#[test]
fn simd_saddw16_lo() {
    assert_eq!(helper_saddw16_lo(0x10283840506f7f8, 0x102008405fff708), 0x10289830506ef00);
}

#[test]
fn simd_saddw16_hi() {
    assert_eq!(helper_saddw16_hi(0x10283840506f7f8, 0x102008405fff708), 0x10284860506f87c);
}

#[test]
fn simd_ssubw16_lo() {
    assert_eq!(helper_ssubw16_lo(0x10283840506f7f8, 0x102008405fff708), 0x1027d85050700f0);
}

#[test]
fn simd_ssubw16_hi() {
    assert_eq!(helper_ssubw16_hi(0x10283840506f7f8, 0x102008405fff708), 0x10282820506f774);
}

#[test]
fn simd_saddw32_lo() {
    assert_eq!(helper_saddw32_lo(10, 0xffff_fffe), 0x8);
}

#[test]
fn simd_saddw32_hi() {
    assert_eq!(helper_saddw32_hi(1, 0x8000_0000_0000_0000), 0xffffffff80000001);
}

#[test]
fn simd_smull32_lo() {
    assert_eq!(helper_smull32_lo(0xffff_fffe, 3), 0xfffffffffffffffa);
}

#[test]
fn simd_smull32_hi() {
    assert_eq!(helper_smull32_hi(0x7fff_ffff_0000_0000, 0x8000_0000_0000_0000), 0xc000000080000000);
}

#[test]
fn simd_smlal32_lo() {
    assert_eq!(helper_smlal32_lo(100, 0xffff_fffe, 3), 0x5e);
}

#[test]
fn simd_smlal32_hi() {
    assert_eq!(helper_smlal32_hi(0, 0x0000_0002_0000_0000, 0xffff_ffff_0000_0000), 0xfffffffffffffffe);
}

#[test]
fn simd_ssra32() {
    assert_eq!(helper_ssra32(0x0000_0001_0000_0010, 0x8000_0000_0000_0040, 4), 0xf800000100000014);
}

#[test]
fn simd_smaxv16() {
    assert_eq!(helper_smaxv16_pair(0x8000_7fff_0001_ffff, 0x0002_0003_8001_0000), 0x7fff);
}

#[test]
fn simd_sminv16() {
    assert_eq!(helper_sminv16_pair(0x0001_7fff_0001_ffff, 0x0002_0003_8001_0000), 0x8001);
}
#[test]
fn simd_smull32_pair() {
    let (lo, hi) = tcg_rs::neon::helper_smull32(0x0000_0002_ffff_fffe, 0x0000_0003_0000_0005);
    assert_eq!(lo, (-10i64) as u64);
    assert_eq!(hi, 6);
}

#[test]
fn simd_tbl1_out_of_range_is_zero() {
    assert_eq!(helper_tbl1(u64::MAX, u64::MAX, 0x1010_1010_1010_1010), 0);
}

#[test]
fn simd_ext8_whole_second_half() {
    assert_eq!(helper_ext8(0x1111, 0x2222, 8), 0x2222);
    assert_eq!(helper_ext8(0x1111, 0x2222, 0), 0x1111);
}

#[test]
fn simd_abs32_most_negative_stays() {
    assert_eq!(helper_abs32(0x8000_0000_8000_0000), 0x8000_0000_8000_0000);
}

#[test]
fn simd_sub8_undoes_add8() {
    let (a, b) = (0x0102_8384_0506_f7f8u64, 0xffee_ddcc_bbaa_9988u64);
    assert_eq!(helper_sub8(helper_add8(a, b), b), a);
}

#[test]
fn simd_neg8_twice() {
    let a = 0x0080_7f01_ff00_1234u64;
    assert_eq!(helper_neg8(helper_neg8(a)), a);
}

#[test]
fn simd_uzp_undoes_zip() {
    let (a, b) = (0x0706_0504_0302_0100u64, 0x1716_1514_1312_1110u64);
    let lo = helper_zip1_8(a, b);
    let hi = helper_zip2_8(a, b);
    assert_eq!(lo, 0x1303_1202_1101_1000);
    assert_eq!(helper_uzp1_8(lo, hi), a);
    assert_eq!(helper_uzp2_8(lo, hi), b);
}

#[test]
fn simd_rev64_16_twice() {
    let a = 0x1111_2222_3333_4444u64;
    assert_eq!(helper_rev64_16(a), 0x4444_3333_2222_1111);
    assert_eq!(helper_rev64_16(helper_rev64_16(a)), a);
}

#[test]
fn simd_sub32_undoes_add32() {
    let (a, b) = (0xffff_ffff_0000_0001u64, 0x0000_0002_ffff_ffffu64);
    assert_eq!(helper_sub32(helper_add32(a, b), b), a);
}
