use raylib::clamp;
use raylib::color::{quantize, CEILING};
use raylib::rank::less;
use raylib::vec::{Vec3, TINY};

fn clamp_numbers(x: f64, min: f64, max: f64) -> f64 {
    if x < min {
        return min;
    }
    if x > max {
        return max;
    }
    x
}

fn expected_level(x: f64) -> i32 {
    (256.0 * clamp_numbers(x, 0.0, 0.999)) as i32
}

fn probes() -> Vec<f64> {
    let mut all = vec![
        f64::NEG_INFINITY,
        f64::MIN,
        -2.0,
        -1.0,
        -0.5,
        -1e-8,
        -f64::MIN_POSITIVE,
        -5e-324,
        -0.0,
        0.0,
        5e-324,
        f64::MIN_POSITIVE,
        1e-300,
        1e-8,
        0.001,
        0.0039,
        0.5,
        0.7071067811865476,
        0.998,
        0.999,
        0.9999,
        1.0,
        1.5,
        2.0,
        255.999,
        1e300,
        f64::MAX,
        f64::INFINITY,
        f64::NAN,
    ];
    for k in 0..=256 {
        let edge = k as f64 / 256.0;
        all.push(edge);
        all.push(f64::from_bits(edge.to_bits() + 1));
        if k > 0 {
            all.push(f64::from_bits(edge.to_bits() - 1));
        }
    }
    for i in 0..2000 {
        all.push(i as f64 / 1999.0);
        all.push((i as f64 / 1999.0).sqrt());
    }
    all
}

#[test]
fn ceiling_and_threshold_are_the_patterns_of_their_numbers() {
    assert_eq!(CEILING, 0.999f64.to_bits());
    assert_eq!(TINY, 1e-8f64.to_bits());
}

#[test]
fn level_of_known_channels() {
    assert_eq!(quantize(0.0f64.to_bits()), 0);
    assert_eq!(quantize(0.5f64.to_bits()), 128);
    assert_eq!(quantize(0.25f64.to_bits()), 64);
    assert_eq!(quantize(0.999f64.to_bits()), 255);
    assert_eq!(quantize(1.0f64.to_bits()), 255);
    assert_eq!(quantize((1.0f64 / 256.0).to_bits()), 1);
    assert_eq!(quantize(0.0039f64.to_bits()), 0);
    assert_eq!(quantize((-0.3f64).to_bits()), 0);
}

#[test]
fn level_is_the_clamped_channel_times_256_rounded_down() {
    for x in probes() {
        assert_eq!(quantize(x.to_bits()) as i32, expected_level(x), "channel {}", x);
    }
}

#[test]
fn gamma_corrected_level_follows_the_formula() {
    for i in 0..=1000 {
        let c = i as f64 / 1000.0;
        let expected = (256.0 * clamp_numbers(c.sqrt(), 0.0, 0.999)).floor() as u8;
        assert_eq!(quantize(c.sqrt().to_bits()), expected);
    }
    assert_eq!(quantize(0.25f64.sqrt().to_bits()), 128);
    assert_eq!(quantize(0.5f64.sqrt().to_bits()), 181);
}

#[test]
fn level_of_what_is_no_number_is_zero() {
    assert_eq!(quantize(f64::NAN.to_bits()), 0);
    assert_eq!(quantize((-f64::NAN).to_bits()), 0);
    assert_eq!(quantize(u64::MAX), 0);
}

#[test]
fn less_is_the_order_of_the_numbers() {
    let all = probes();
    for a in all.iter().step_by(37) {
        for b in all.iter().step_by(41) {
            assert_eq!(less(a.to_bits(), b.to_bits()), a < b, "{} < {}", a, b);
            assert_eq!(less(b.to_bits(), a.to_bits()), b < a, "{} < {}", b, a);
        }
    }
    assert!(less(1.0f64.to_bits(), 2.0f64.to_bits()));
    assert!(!less(2.0f64.to_bits(), 1.0f64.to_bits()));
    assert!(!less((-0.0f64).to_bits(), 0.0f64.to_bits()));
    assert!(!less(f64::NAN.to_bits(), 1.0f64.to_bits()));
    assert!(!less(1.0f64.to_bits(), f64::NAN.to_bits()));
}

#[test]
fn clamp_brings_a_number_into_its_range() {
    let bounds: [(f64, f64); 5] = [(0.0, 0.999), (0.0, 1.0), (-1.0, 1.0), (0.5, 0.5), (-0.0, 0.0)];
    for x in probes() {
        for &(min, max) in bounds.iter() {
            let got = f64::from_bits(clamp(x.to_bits(), min.to_bits(), max.to_bits()));
            let expected = clamp_numbers(x, min, max);
            assert_eq!(got.to_bits(), expected.to_bits(), "clamp({}, {}, {})", x, min, max);
        }
    }
    assert_eq!(clamp(2.0f64.to_bits(), 0.0f64.to_bits(), 1.0f64.to_bits()), 1.0f64.to_bits());
    assert_eq!(clamp((-2.0f64).to_bits(), 0.0f64.to_bits(), 1.0f64.to_bits()), 0.0f64.to_bits());
    assert_eq!(clamp(0.3f64.to_bits(), 0.0f64.to_bits(), 1.0f64.to_bits()), 0.3f64.to_bits());
}

#[test]
fn vector_keeps_its_components() {
    let v = Vec3::new(1, 2, 3);
    assert_eq!((v.x, v.y, v.z), (1, 2, 3));
}

#[test]
fn near_zero_asks_every_component() {
    let s = 1e-8;
    let values = [0.0, -0.0, 5e-324, 9.9e-9, -9.9e-9, 1e-8, -1e-8, 1.1e-8, 1.0, -1.0, f64::INFINITY, f64::NAN];
    for &x in values.iter() {
        for &y in values.iter() {
            for &z in values.iter() {
                let expected = x.abs() < s && y.abs() < s && z.abs() < s;
                let v = Vec3::new(x.to_bits(), y.to_bits(), z.to_bits());
                assert_eq!(v.near_zero(), expected, "({}, {}, {})", x, y, z);
            }
        }
    }
}

#[test]
fn pixel_line_holds_the_three_levels() {
    assert_eq!(
        raylib::color::pixel(0.5f64.to_bits(), 0.0f64.to_bits(), 1.0f64.to_bits()),
        b"128 0 255\n".to_vec()
    );
    assert_eq!(
        raylib::color::pixel((-1.0f64).to_bits(), 0.25f64.to_bits(), f64::NAN.to_bits()),
        b"0 64 0\n".to_vec()
    );
    for x in probes().iter().step_by(29) {
        let expected = format!("{} 7 {}\n", expected_level(*x), expected_level(x * 0.5));
        let seven = 7.5f64 / 256.0;
        assert_eq!(
            raylib::color::pixel(x.to_bits(), seven.to_bits(), (x * 0.5).to_bits()),
            expected.into_bytes()
        );
    }
}
