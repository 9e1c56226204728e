use tcg_rs::fp_data::{decode_fp_data, decode_fp_data_rest, FpDataOp};
use tcg_rs::fp_decode::{decode_fp_scalar, FpHelper, FpLoc, FpScalarOp};
use tcg_rs::ldst_multiple::{fp_ldst_multiple_plan, ldst_multiple_accesses, Access, Writeback};
use tcg_rs::permute::{apply_permute, decode_neon_permute, Half, PermHalf, PermOp};
use tcg_rs::shift_imm::{decode_neon_shift_imm, ShiftKind};
use tcg_rs::three_same::{decode_neon_3same, ThreeSameKind};
use tcg_rs::two_reg_misc::{decode_neon_2reg_misc, TwoRegMiscKind};

#[test]
fn fp_scalar_two_source_and_compare() {
    assert_eq!(
        decode_fp_scalar(0x1e62_2820),
        Some(FpScalarOp::Binary { helper: FpHelper::Fadd64, rd: 0, rn: 1, rm: 2 })
    );
    assert_eq!(decode_fp_scalar(0x1e60_2008), Some(FpScalarOp::Compare { rn: 0, other: None }));
    assert_eq!(decode_fp_scalar(0x1e62_2000), Some(FpScalarOp::Compare { rn: 0, other: Some(2) }));
}

#[test]
fn fp_scalar_fixed_point_and_moves() {
    assert_eq!(
        decode_fp_scalar(0x1e42_fc2d),
        Some(FpScalarOp::Fixed {
            helper: FpHelper::ScvtfDWFixed,
            src: FpLoc::X,
            dst: FpLoc::VLo,
            rd: 13,
            rn: 1,
            fbits: 1,
        })
    );
    assert_eq!(decode_fp_scalar(0x1e42_002d), Some(FpScalarOp::Unsupported));
    assert_eq!(
        decode_fp_scalar(0x9e66_0020),
        Some(FpScalarOp::Move { src: FpLoc::VLo, dst: FpLoc::X, rd: 0, rn: 1, low32: false })
    );
    assert_eq!(decode_fp_scalar(0x0e20_8420), None);
}

#[test]
fn fp_data_dispatch() {
    assert_eq!(
        decode_fp_data(0x1f42_0c20),
        FpDataOp::Fused { helper: FpHelper::Fmadd64, rd: 0, rn: 1, rm: 2, ra: 3 }
    );
    assert_eq!(decode_fp_data(0x0f00_0400), FpDataOp::Movi);
    assert_eq!(
        decode_fp_data(0x1e62_2820),
        FpDataOp::Scalar(FpScalarOp::Binary { helper: FpHelper::Fadd64, rd: 0, rn: 1, rm: 2 })
    );
    assert_eq!(decode_fp_data_rest(0x5ef1_b820), FpDataOp::AddPair { rd: 0, rn: 1 });
    assert_eq!(decode_fp_data_rest(0x5eb1_b820), FpDataOp::Refused);
}

#[test]
fn permute_uzp1_and_zip() {
    let p = decode_neon_permute(0x4e02_1820).unwrap();
    assert_eq!((p.rd, p.rn, p.rm), (0, 1, 2));
    assert_eq!(p.lo, PermHalf { op: PermOp::Uzp1B, a: Half::NLo, b: Half::NHi });
    assert_eq!(p.hi, Some(PermHalf { op: PermOp::Uzp1B, a: Half::MLo, b: Half::MHi }));
    let z = decode_neon_permute(0x0e82_3820).unwrap();
    assert_eq!(z.lo, PermHalf { op: PermOp::LowWords, a: Half::NLo, b: Half::MLo });
    assert_eq!(z.hi, None);
    assert_eq!(decode_neon_permute(0x0ec2_1820), None);
}

#[test]
fn ldst_multiple_ld1_and_ld2() {
    let p = fp_ldst_multiple_plan(0x4c40_7020).unwrap();
    assert!(p.load && p.q && !p.interleaved && p.writeback.is_none());
    assert_eq!((p.rn, p.rt, p.nregs), (1, 0, 1));
    let a = ldst_multiple_accesses(&p);
    assert_eq!(
        a,
        vec![
            Access { reg: 0, hi: false, bit_off: 0, offset: 0, bytes: 8 },
            Access { reg: 0, hi: true, bit_off: 0, offset: 8, bytes: 8 },
        ]
    );
    let p2 = fp_ldst_multiple_plan(0x4cdf_8820).unwrap();
    assert!(p2.interleaved);
    assert_eq!((p2.nregs, p2.elem_bytes), (2, 4));
    assert_eq!(p2.writeback, Some(Writeback::Imm(32)));
    let a2 = ldst_multiple_accesses(&p2);
    assert_eq!(a2.len(), 8);
    assert_eq!(a2[1], Access { reg: 1, hi: false, bit_off: 0, offset: 4, bytes: 4 });
    assert_eq!(a2[2], Access { reg: 0, hi: false, bit_off: 32, offset: 8, bytes: 4 });
    assert_eq!(a2[7], Access { reg: 1, hi: true, bit_off: 32, offset: 28, bytes: 4 });
    assert_eq!(fp_ldst_multiple_plan(0x4c40_1020), None);
}

#[test]
fn shift_imm_shl_and_ushr() {
    let s = decode_neon_shift_imm(0x0f0b_5420).unwrap();
    assert_eq!((s.kind, s.q, s.shift, s.rd, s.rn), (ShiftKind::Shl8, false, 3, 0, 1));
    let u = decode_neon_shift_imm(0x6f40_0420).unwrap();
    assert_eq!((u.kind, u.q, u.shift), (ShiftKind::Ushr64, true, 64));
    let n = decode_neon_shift_imm(0x0f0d_8420).unwrap();
    assert_eq!((n.kind, n.shift), (ShiftKind::Shrn8, 3));
}

#[test]
fn three_same_and_two_reg_misc() {
    let a = decode_neon_3same(0x4ea2_8420).unwrap();
    assert_eq!((a.kind, a.q, a.rd, a.rn, a.rm), (ThreeSameKind::Add32, true, 0, 1, 2));
    assert_eq!(decode_neon_3same(0x4e22_1c20).unwrap().kind, ThreeSameKind::And);
    assert_eq!(decode_neon_3same(0x0e62_8420), None);
    assert_eq!(decode_neon_2reg_misc(0x0e20_5820).unwrap().kind, TwoRegMiscKind::Cnt8);
    let n = decode_neon_2reg_misc(0x6e20_5820).unwrap();
    assert_eq!((n.kind, n.q), (TwoRegMiscKind::Not, true));
}

#[test]
fn permute_applies_helpers() {
    let p = decode_neon_permute(0x4e02_1820).unwrap();
    let (lo, hi) = apply_permute(p, 0x0706_0504_0302_0100, 0x0f0e_0d0c_0b0a_0908, 0x1716_1514_1312_1110, 0x1f1e_1d1c_1b1a_1918);
    assert_eq!(lo, 0x0e0c_0a08_0604_0200);
    assert_eq!(hi, 0x1e1c_1a18_1614_1210);
    let z = decode_neon_permute(0x0e82_3820).unwrap();
    assert_eq!(apply_permute(z, 0x1111_1111_2222_2222, 0, 0x3333_3333_4444_4444, 0), (0x4444_4444_2222_2222, 0));
}
