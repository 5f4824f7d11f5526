use ascii_art::color::{hsv_to_rgb, rgb_to_hsv};
use ascii_art::frac::Frac;

fn frac_value(f: Frac) -> f64 {
    f.num as f64 / f.den as f64
}

fn values_equal(a: Frac, b: Frac) -> bool {
    a.num as u128 * b.den as u128 == b.num as u128 * a.den as u128
}

fn check_round_trip(r: u64, g: u64, b: u64, den: u64) {
    let (h, s, v) = rgb_to_hsv(Frac::new(r, den), Frac::new(g, den), Frac::new(b, den));
    let (r2, g2, b2) = hsv_to_rgb(h, s, v);
    assert!(values_equal(r2, Frac::new(r, den)), "red not restored for ({r},{g},{b})/{den}");
    assert!(values_equal(g2, Frac::new(g, den)), "green not restored for ({r},{g},{b})/{den}");
    assert!(values_equal(b2, Frac::new(b, den)), "blue not restored for ({r},{g},{b})/{den}");
}

#[test]
fn round_trip_samples() {
    // One representative of each hue sector, plus boundary orderings.
    check_round_trip(204, 102, 51, 255); // r max, g >= b
    check_round_trip(204, 51, 102, 255); // r max, g < b
    check_round_trip(102, 204, 51, 255); // g max, b < r
    check_round_trip(51, 204, 102, 255); // g max, b >= r
    check_round_trip(51, 102, 204, 255); // b max, r < g
    check_round_trip(102, 51, 204, 255); // b max, r >= g
    check_round_trip(200, 200, 100, 255); // two channels tied at max
    check_round_trip(100, 200, 200, 255); // tie not involving red
}

#[test]
fn round_trip_exhaustive_small_denominator() {
    for r in 0..=10 {
        for g in 0..=10 {
            for b in 0..=10 {
                check_round_trip(r, g, b, 10);
            }
        }
    }
}

#[test]
fn achromatic_gives_zero_hue_and_saturation() {
    let (h, s, v) = rgb_to_hsv(Frac::new(128, 255), Frac::new(128, 255), Frac::new(128, 255));
    assert_eq!(h.num, 0);
    assert_eq!(s.num, 0);
    assert_eq!(v.num, 128);
    assert_eq!(v.den, 255);
    let (r2, g2, b2) = hsv_to_rgb(h, s, v);
    assert_eq!((r2.num, r2.den), (128, 255));
    assert_eq!((g2.num, g2.den), (128, 255));
    assert_eq!((b2.num, b2.den), (128, 255));
}

#[test]
fn pure_red_has_full_saturation_and_zero_hue() {
    let (h, s, v) = rgb_to_hsv(Frac::new(255, 255), Frac::new(0, 255), Frac::new(0, 255));
    assert_eq!(h.num, 0);
    assert_eq!(s.num, s.den); // saturation 1
    assert_eq!(v.num, v.den); // value 1
}

#[test]
fn matches_float_reference() {
    // The classic float formulation (after the Python colorsys module),
    // with the hue reduced into [0, 1).
    fn reference(r: f64, g: f64, b: f64) -> (f64, f64, f64) {
        let max = r.max(g).max(b);
        let min = r.min(g).min(b);
        if max == min {
            return (0.0, 0.0, max);
        }
        let s = (max - min) / max;
        let rc = (max - r) / (max - min);
        let gc = (max - g) / (max - min);
        let bc = (max - b) / (max - min);
        let h = if r == max {
            bc - gc
        } else if g == max {
            2.0 + rc - bc
        } else {
            4.0 + gc - rc
        };
        (((h / 6.0) % 1.0 + 1.0) % 1.0, s, max)
    }
    for (r, g, b) in [(13u64, 200u64, 77u64), (255, 254, 0), (9, 9, 10), (77, 13, 200)] {
        let (h, s, v) = rgb_to_hsv(Frac::new(r, 255), Frac::new(g, 255), Frac::new(b, 255));
        let (hf, sf, vf) = reference(r as f64 / 255.0, g as f64 / 255.0, b as f64 / 255.0);
        assert!((frac_value(h) - hf).abs() < 1e-9);
        assert!((frac_value(s) - sf).abs() < 1e-9);
        assert!((frac_value(v) - vf).abs() < 1e-9);
    }
}
