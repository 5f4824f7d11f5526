use ascii_art::frac::Frac;
use ascii_art::levels::{adjust, LEVEL_SCALE};

#[test]
fn low_threshold_maps_exactly_to_zero() {
    // v == min_level / 255, here with the blend denominator 510.
    let v = Frac::new(2 * 78, 510);
    let r = adjust(v, 78, 125, 78);
    assert_eq!(r.num, 0);
    assert_eq!(r.den, LEVEL_SCALE);
}

#[test]
fn below_low_threshold_maps_to_zero() {
    let r = adjust(Frac::new(10, 510), 78, 125, 78);
    assert_eq!(r.num, 0);
}

#[test]
fn high_threshold_maps_exactly_to_one() {
    let v = Frac::new(2 * 125, 510);
    let r = adjust(v, 78, 125, 78);
    assert_eq!(r.num, LEVEL_SCALE);
}

#[test]
fn above_high_threshold_maps_to_one() {
    let r = adjust(Frac::new(400, 510), 78, 125, 78);
    assert_eq!(r.num, LEVEL_SCALE);
}

#[test]
fn monotone_in_v() {
    let mut last: u64 = 0;
    for n in 0..=510u64 {
        let r = adjust(Frac::new(n, 510), 78, 125, 78);
        assert!(r.num >= last, "adjust not monotone at {n}");
        last = r.num;
    }
    assert_eq!(last, LEVEL_SCALE);
}

#[test]
fn gamma_one_approximates_the_plain_stretch() {
    // With gamma = 1.00 the stretch is linear: (v - min) / (max - min).
    for n in [90u64, 120, 160, 200, 230] {
        let v = Frac::new(n, 255);
        let r = adjust(v, 78, 125, 100);
        let expect = (n as f64 / 255.0 - 78.0 / 255.0) / (125.0 / 255.0 - 78.0 / 255.0);
        let expect = expect.clamp(0.0, 1.0);
        let got = r.num as f64 / r.den as f64;
        assert!((got - expect).abs() < 0.01, "gamma 1: got {got}, want {expect}");
    }
}

#[test]
fn matches_float_power_reference() {
    // Default configuration: gamma 0.78, thresholds 78 and 125.
    for n in [80u64, 90, 100, 110, 120, 124] {
        let v = Frac::new(n, 255);
        let r = adjust(v, 78, 125, 78);
        let ratio = (n as f64 - 78.0) / (125.0 - 78.0);
        let expect = ratio.powf(1.0 / 0.78);
        let got = r.num as f64 / r.den as f64;
        assert!((got - expect).abs() < 0.01, "adjust({n}): got {got}, want {expect}");
    }
}
