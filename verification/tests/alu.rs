use tcg_rs::alu::{
    helper_rbit32, helper_rbit64, helper_rev16_32, helper_rev16_64, helper_rev32_64,
    helper_sdiv32, helper_sdiv64, helper_udiv32, helper_udiv64,
};

#[test]
fn udiv64_values() {
    assert_eq!(helper_udiv64(100, 7), 14);
    assert_eq!(helper_udiv64(100, 0), 0);
    assert_eq!(helper_udiv64(u64::MAX, 1), u64::MAX);
}

#[test]
fn udiv32_uses_low_words() {
    assert_eq!(helper_udiv32(0x1_0000_0064, 0x2_0000_0007), 14);
    assert_eq!(helper_udiv32(5, 0x1_0000_0000), 0);
}

#[test]
fn sdiv64_rounds_toward_zero() {
    assert_eq!(helper_sdiv64((-7i64) as u64, 2), (-3i64) as u64);
    assert_eq!(helper_sdiv64(7, (-2i64) as u64), (-3i64) as u64);
    assert_eq!(helper_sdiv64((-7i64) as u64, (-2i64) as u64), 3);
    assert_eq!(helper_sdiv64(7, 0), 0);
    assert_eq!(helper_sdiv64(i64::MIN as u64, 1), i64::MIN as u64);
}

#[test]
fn sdiv32_sign_extends_the_quotient() {
    assert_eq!(helper_sdiv32(0xffff_fff9, 2), (-3i64) as u64);
    assert_eq!(helper_sdiv32(0xffff_ffff_0000_0009, 0x5_0000_0003), 3);
    assert_eq!(helper_sdiv32(9, 0), 0);
}

#[test]
fn rbit_values() {
    assert_eq!(helper_rbit64(1), 0x8000_0000_0000_0000);
    assert_eq!(helper_rbit64(0x0000_0000_0000_00f0), 0x0f00_0000_0000_0000);
    assert_eq!(helper_rbit32(1), 0x8000_0000);
    assert_eq!(helper_rbit32(0xffff_ffff_0000_0003), 0xc000_0000);
}

#[test]
fn byte_reversals() {
    assert_eq!(helper_rev16_64(0x0102_0304_0506_0708), 0x0201_0403_0605_0807);
    assert_eq!(helper_rev16_32(0xaaaa_bbbb_0102_0304), 0x0201_0403);
    assert_eq!(helper_rev32_64(0x0102_0304_0506_0708), 0x0403_0201_0807_0605);
}

#[test]
fn reversals_twice_give_the_value_back() {
    let a = 0x0123_4567_89ab_cdefu64;
    assert_eq!(helper_rbit64(helper_rbit64(a)), a);
    assert_eq!(helper_rev16_64(helper_rev16_64(a)), a);
    assert_eq!(helper_rev32_64(helper_rev32_64(a)), a);
}
