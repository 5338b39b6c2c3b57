use pwrzv::sigmoid::{get_sigmoid_config, SigmoidFn};
use pwrzv::{HALF_SCALE, SCALE};

#[test]
fn test_sigmoid_basic() {
    let f = SigmoidFn {
        midpoint: 500_000,
        steepness: 10_000_000,
    };

    // Exactly one half at the midpoint
    let result = f.evaluate(500_000);
    assert_eq!(result, HALF_SCALE);

    // Range boundaries
    let low_result = f.evaluate(0);
    let high_result = f.evaluate(1_000_000);
    assert!(low_result < HALF_SCALE);
    assert!(high_result > HALF_SCALE);

    // Results stay inside the unit interval
    assert!(low_result >= 1 && low_result <= SCALE - 1);
    assert!(high_result >= 1 && high_result <= SCALE - 1);
}

#[test]
fn test_sigmoid_monotonic() {
    let f = SigmoidFn {
        midpoint: 500_000,
        steepness: 10_000_000,
    };

    // Sigmoid should be monotonically increasing
    let values: [i64; 6] = [0, 200_000, 400_000, 600_000, 800_000, 1_000_000];
    let results: Vec<u64> = values.iter().map(|&x| f.evaluate(x)).collect();

    for i in 1..results.len() {
        assert!(
            results[i] > results[i - 1],
            "Sigmoid should be monotonically increasing"
        );
    }
}

#[test]
fn test_sigmoid_steepness() {
    let steep = SigmoidFn {
        midpoint: 500_000,
        steepness: 50_000_000,
    };
    let gentle = SigmoidFn {
        midpoint: 500_000,
        steepness: 2_000_000,
    };

    // Steeper function should have larger difference at extremes
    let steep_diff = steep.evaluate(800_000) - steep.evaluate(200_000);
    let gentle_diff = gentle.evaluate(800_000) - gentle.evaluate(200_000);

    assert!(
        steep_diff > gentle_diff,
        "Steeper function should have larger difference"
    );
}

#[test]
fn test_get_sigmoid_config() {
    // Test default configuration with no overrides supplied
    let config = get_sigmoid_config(700_000, 15_000_000, None, None);
    assert_eq!(config.midpoint, 700_000);
    assert_eq!(config.steepness, 15_000_000);
}

#[test]
fn test_sigmoid_edge_cases() {
    let f = SigmoidFn {
        midpoint: 500_000,
        steepness: 10_000_000,
    };

    // Test extreme values
    let very_low = f.evaluate(-1_000_000);
    let very_high = f.evaluate(2_000_000);

    assert!(very_low >= 1 && very_low <= SCALE - 1);
    assert!(very_high >= 1 && very_high <= SCALE - 1);
    assert!(very_low < very_high);
}

#[test]
fn test_sigmoid_zero_steepness_is_half() {
    let f = SigmoidFn {
        midpoint: 300_000,
        steepness: 0,
    };
    for x in [-1_000_000i64, 0, 250_000, 300_000, 999_999, 10_000_000] {
        assert_eq!(f.evaluate(x), HALF_SCALE);
    }
}

#[test]
fn test_sigmoid_midpoint_is_half_for_any_steepness() {
    for k in [1i64, 5_000_000, 100_000_000, 1_000_000_000] {
        let f = SigmoidFn {
            midpoint: 123_456,
            steepness: k,
        };
        assert_eq!(f.evaluate(123_456), HALF_SCALE);
    }
}

#[test]
fn test_sigmoid_saturates_at_extremes() {
    let f = SigmoidFn {
        midpoint: 20_000,
        steepness: 1_000_000_000,
    };
    // Far above the midpoint with huge steepness: pinned to the top edge
    assert_eq!(f.evaluate(1_000_000), SCALE - 1);
    // Far below: pinned to the bottom edge
    assert_eq!(f.evaluate(-1_000_000_000), 1);
}

#[test]
fn test_sigmoid_config_override_applied() {
    let config = get_sigmoid_config(700_000, 15_000_000, Some("0.9"), Some("25"));
    assert_eq!(config.midpoint, 900_000);
    assert_eq!(config.steepness, 25_000_000);
}

#[test]
fn test_sigmoid_config_invalid_override_falls_back() {
    // Unparseable, empty, exotic and out-of-range overrides all fall back
    let cases = ["abc", "", "1e3", "nan", "12.5.7", "2000.1", "--4"];
    for bad in cases {
        let config = get_sigmoid_config(700_000, 15_000_000, Some(bad), Some(bad));
        assert_eq!(config.midpoint, 700_000, "override {bad:?} should fall back");
        assert_eq!(config.steepness, 15_000_000);
    }
}

#[test]
fn test_sigmoid_config_signed_and_fractional_overrides() {
    let config = get_sigmoid_config(0, 0, Some("-0.25"), Some("+12.125"));
    assert_eq!(config.midpoint, -250_000);
    assert_eq!(config.steepness, 12_125_000);
}

#[test]
fn test_sigmoid_default() {
    let f = SigmoidFn::default();
    assert_eq!(f.midpoint, 500_000);
    assert_eq!(f.steepness, 8_000_000);
}

#[test]
fn test_sigmoid_known_value() {
    // At one steepness-width above the midpoint the pressure is close to
    // e / (1 + e), about 0.731.
    let f = SigmoidFn {
        midpoint: 500_000,
        steepness: 1_000_000,
    };
    let p = f.evaluate(1_500_000);
    assert!(p > 725_000 && p < 735_000, "got {p}");
}
