use float_parts::binary32::{decode, parse, recalculate};
use float_parts::dyadic::Dyadic;

fn as_f64(d: Dyadic) -> f64 {
    d.significand as f64 * 2f64.powi(d.exponent)
}

fn recompose(x: f32) -> Dyadic {
    let (s, e, m) = parse(x.to_bits());
    let (a, b, c) = decode(s, e, m);
    recalculate(a, b, c)
}

#[test]
fn test_parse() {
    assert_eq!(parse(1.0f32.to_bits()), (0, 127, 0));
    assert_eq!(parse((-2.0f32).to_bits()), (1, 128, 0));
    assert_eq!(parse(0.0f32.to_bits()), (0, 0, 0));
    assert_eq!(parse(1.5f32.to_bits()), (0, 127, 0x40_0000));
    assert_eq!(parse(0xffff_ffff), (1, 0xff, 0x7f_ffff));
}

#[test]
fn test_decode() {
    let (s, e, m) = decode(0, 127, 0);
    assert_eq!(s, Dyadic { significand: 1, exponent: 0 });
    assert_eq!(e, Dyadic { significand: 1, exponent: 0 });
    assert_eq!(m, Dyadic { significand: 0x80_0000, exponent: -23 });
    let (s, e, m) = decode(1, 130, 0x40_0001);
    assert_eq!(s, Dyadic { significand: -1, exponent: 0 });
    assert_eq!(e, Dyadic { significand: 1, exponent: 3 });
    assert_eq!(m, Dyadic { significand: 0xc0_0001, exponent: -23 });
    assert_eq!(as_f64(m), 1.0 + 0.5 + 2f64.powi(-23));
}

#[test]
fn test_recalculate() {
    let r = recalculate(
        Dyadic { significand: -1, exponent: 0 },
        Dyadic { significand: 1, exponent: 2 },
        Dyadic { significand: 0xc0_0000, exponent: -23 },
    );
    assert_eq!(r, Dyadic { significand: -0xc0_0000, exponent: -21 });
    assert_eq!(as_f64(r), -6.0);
}

#[test]
fn round_trip_normalized_values() {
    for x in [1.0f32, -2.0, 3.14, -0.5, 1e10, 1.17549435e-38, f32::MAX, -123.456, 0.1] {
        assert_eq!(as_f64(recompose(x)), x as f64);
    }
}

#[test]
fn sign_isolation() {
    assert_eq!(parse((-1.5f32).to_bits()).0, 1);
    assert_eq!(parse((-0.0f32).to_bits()).0, 1);
    assert_eq!(parse(f32::NEG_INFINITY.to_bits()).0, 1);
    assert_eq!(parse(1.5f32.to_bits()).0, 0);
    assert_eq!(parse(0.0f32.to_bits()).0, 0);
    assert_eq!(parse(f32::INFINITY.to_bits()).0, 0);
}

#[test]
fn bit_reconstruction() {
    for x in [3.14f32, -0.0, 1e-40, f32::NAN, f32::NEG_INFINITY, -7.25] {
        let bits = x.to_bits();
        let (s, e, m) = parse(bits);
        assert_eq!((s << 31) | (e << 23) | m, bits);
    }
}

#[test]
fn mantissa_range() {
    for x in [1.0f32, 1.9999999, 3.0, -0.75, f32::MAX, f32::MIN_POSITIVE] {
        let (s, e, m) = parse(x.to_bits());
        let v = as_f64(decode(s, e, m).2);
        assert!((1.0..2.0).contains(&v));
    }
}

#[test]
fn one_scenario() {
    let (s, e, m) = parse(1.0f32.to_bits());
    assert_eq!((s, e, m), (0, 0b0111_1111, 0));
    assert_eq!(as_f64(recompose(1.0)), 1.0);
}

#[test]
fn minus_two_scenario() {
    let (s, e, m) = parse((-2.0f32).to_bits());
    assert_eq!((s, e, m), (1, 0b1000_0000, 0));
    assert_eq!(recompose(-2.0), Dyadic { significand: -0x80_0000, exponent: -22 });
    assert_eq!(as_f64(recompose(-2.0)), -2.0);
}

#[test]
fn zero_is_not_recomposed_to_zero() {
    assert_eq!(parse(0.0f32.to_bits()), (0, 0, 0));
    let (_, e, _) = decode(0, 0, 0);
    assert_eq!(as_f64(e), 2f64.powi(-127));
    let r = recompose(0.0);
    assert_eq!(r, Dyadic { significand: 0x80_0000, exponent: -150 });
    assert_ne!(as_f64(r), 0.0);
}

#[test]
fn negative_zero_scenario() {
    assert_eq!(parse((-0.0f32).to_bits()), (1, 0, 0));
    assert_ne!((-0.0f32).to_bits(), 0.0f32.to_bits());
    assert_eq!(-0.0f32, 0.0f32);
}

#[test]
fn all_ones_exponent_is_decoded_uniformly() {
    let (_, e, _) = decode(0, 255, 0);
    assert_eq!(e, Dyadic { significand: 1, exponent: 128 });
}

#[test]
fn dyadic_product() {
    let a = Dyadic { significand: -3, exponent: 4 };
    let b = Dyadic { significand: 5, exponent: -6 };
    assert_eq!(a.mul(b), Dyadic { significand: -15, exponent: -2 });
}
