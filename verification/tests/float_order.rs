use vauth::float_order::{f64_greater_than, f64_less_than};

fn samples() -> Vec<f64> {
    vec![
        0.0, -0.0, 1.0, -1.0, 0.21, 0.23, 0.3, 0.15, 0.2099999999, 0.2100000001, 1e-300, -1e-300,
        f64::MIN_POSITIVE, -f64::MIN_POSITIVE, 5e-324, -5e-324, f64::MAX, f64::MIN, f64::INFINITY,
        f64::NEG_INFINITY, f64::NAN, -f64::NAN, f64::from_bits(0x7FF0_0000_0000_0001),
        f64::from_bits(0xFFF8_0000_0000_0001), 123456.789, -98765.4321,
    ]
}

#[test]
fn less_than_agrees_with_f64() {
    for &a in &samples() {
        for &b in &samples() {
            assert_eq!(f64_less_than(a.to_bits(), b.to_bits()), a < b, "{a} < {b}");
        }
    }
}

#[test]
fn greater_than_agrees_with_f64() {
    for &a in &samples() {
        for &b in &samples() {
            assert_eq!(f64_greater_than(a.to_bits(), b.to_bits()), a > b, "{a} > {b}");
        }
    }
}
