use synth_phone_core::num::{SCALED_LIMIT, S24};

const SCALE: f32 = 8388608.0;

fn to_hardware(x: f32) -> S24 {
    S24::from_scaled((x * SCALE) as i32)
}

fn to_float(s: S24) -> f32 {
    s.to_scaled() as f32 * (1.0 / SCALE)
}

#[test]
fn raw_i32_round_trip() {
    for x in [0i32, 1, -1, 0x7F_FFFF, -0x80_0000, i32::MAX, i32::MIN] {
        assert_eq!(i32::from(S24::from(x)), x);
    }
}

#[test]
fn raw_u32_round_trip() {
    for x in [0u32, 1, 0x80_0000, 0xFF_FFFF, 0xFFFF_FFFF, 0x1234_5678] {
        assert_eq!(u32::from(S24::from(x)), x);
    }
}

#[test]
fn raw_reinterprets_bits() {
    assert_eq!(u32::from(S24::from(-1i32)), 0xFFFF_FFFF);
    assert_eq!(i32::from(S24::from(0x8000_0000u32)), i32::MIN);
    assert_eq!(S24::from_raw(7), S24::from(7i32));
}

#[test]
fn most_negative_decodes_to_minus_one() {
    let s = S24::from(0x80_0000u32);
    assert_eq!(s.to_scaled(), -8_388_608);
    assert_eq!(to_float(s), -1.0);
}

#[test]
fn most_positive_decodes_just_under_one() {
    let s = S24::from(0x7F_FFFFu32);
    assert_eq!(s.to_scaled(), 8_388_607);
    let f = to_float(s);
    assert!(f < 1.0);
    assert!(f > 0.9999998);
}

#[test]
fn upper_bits_are_ignored_on_read() {
    assert_eq!(S24::from(0xFF80_0000u32).to_scaled(), -8_388_608);
    assert_eq!(S24::from(0xAB00_0001u32).to_scaled(), 1);
    assert_eq!(S24::from(0x00FF_FFFFu32).to_scaled(), -1);
    assert_eq!(S24::from(-1i32).to_scaled(), -1);
}

#[test]
fn negative_sample_round_trips() {
    assert_eq!(S24::from_scaled(-5).to_scaled(), -5);
    assert_eq!(S24::from_scaled(-SCALED_LIMIT).to_scaled(), -SCALED_LIMIT);
    assert_eq!(S24::from_scaled(SCALED_LIMIT).to_scaled(), SCALED_LIMIT);
}

#[test]
fn clamp_rail_value() {
    assert_eq!(i32::from(to_hardware(0.999985)), SCALED_LIMIT);
    assert_eq!(i32::from(to_hardware(-0.999985)), -SCALED_LIMIT);
    assert_eq!(i32::from(to_hardware(0.5)), 4_194_304);
    assert_eq!(i32::from(to_hardware(-0.25)), -2_097_152);
    assert_eq!(i32::from(to_hardware(0.0)), 0);
}

#[test]
fn saturation_at_both_rails() {
    assert_eq!(to_hardware(2.0), to_hardware(0.999985));
    assert_eq!(to_hardware(-2.0), to_hardware(-0.999985));
    assert_eq!(to_hardware(1.0), to_hardware(0.999985));
    assert_eq!(to_hardware(f32::INFINITY), to_hardware(0.999985));
    assert_eq!(to_hardware(f32::NEG_INFINITY), to_hardware(-0.999985));
    assert_eq!(S24::from_scaled(i32::MAX), S24::from_scaled(SCALED_LIMIT));
    assert_eq!(S24::from_scaled(i32::MIN), S24::from_scaled(-SCALED_LIMIT));
}

#[test]
fn round_trip_within_one_step() {
    let step = 1.0 / SCALE;
    let mut x: f32 = -0.999985;
    while x <= 0.999985 {
        let back = to_float(to_hardware(x));
        assert!((back - x).abs() <= step, "x = {}", x);
        x += 0.000733;
    }
    for x in [-0.999985f32, 0.999985, 0.0, 1e-9, -1e-9, 0.3333333, -0.7777777] {
        let back = to_float(to_hardware(x));
        assert!((back - x).abs() <= step, "x = {}", x);
    }
}
