use lux_threshold::calculate_raw_threshold_value;
use lux_threshold::get_lux_raw_conversion_factor;
use lux_threshold::Gain;
use lux_threshold::IntegrationTime;

const GAINS: [(Gain, u32); 4] = [
    (Gain::Two, 1),
    (Gain::One, 2),
    (Gain::OneQuarter, 8),
    (Gain::OneEighth, 16),
];

const TIMES: [(IntegrationTime, u32); 6] = [
    (IntegrationTime::_800ms, 36),
    (IntegrationTime::_400ms, 72),
    (IntegrationTime::_200ms, 144),
    (IntegrationTime::_100ms, 288),
    (IntegrationTime::_50ms, 576),
    (IntegrationTime::_25ms, 1152),
];

#[test]
fn conversion_factor_matches_table_for_every_pair() {
    for (gain, gain_factor) in GAINS {
        for (it, it_factor) in TIMES {
            let expected: u32 = gain_factor * it_factor;
            assert_eq!(get_lux_raw_conversion_factor(it, gain), expected);
        }
    }
}

#[test]
fn conversion_factor_is_positive_for_every_pair() {
    for (gain, _) in GAINS {
        for (it, _) in TIMES {
            assert!(get_lux_raw_conversion_factor(it, gain) > 0);
        }
    }
}

#[test]
fn conversion_factor_lowest_sensitivity_longest_time() {
    // 1/4 gain at the 800 ms setting: 8 * 36 ten-thousandths.
    assert_eq!(
        get_lux_raw_conversion_factor(IntegrationTime::_800ms, Gain::OneQuarter),
        288
    );
}

#[test]
fn linear_threshold_is_floor_of_lux_over_factor() {
    // 30 lx at gain 2x, 800 ms: factor 0.0036, 30 / 0.0036 = 8333.3.
    assert_eq!(
        calculate_raw_threshold_value(IntegrationTime::_800ms, Gain::Two, 30_000),
        8333
    );
    // 250.5 lx at gain 1x, 100 ms: factor 0.0576, 250.5 / 0.0576 = 4348.9.
    assert_eq!(
        calculate_raw_threshold_value(IntegrationTime::_100ms, Gain::One, 250_500),
        4348
    );
    // 1000 lx at gain 1/4, 800 ms: factor 0.0288, 1000 / 0.0288 = 34722.2.
    assert_eq!(
        calculate_raw_threshold_value(IntegrationTime::_800ms, Gain::OneQuarter, 1_000_000),
        34722
    );
}

#[test]
fn linear_threshold_saturates_at_register_maximum() {
    // 300 lx at gain 2x, 800 ms: 300 / 0.0036 = 83333 > 65535.
    assert_eq!(
        calculate_raw_threshold_value(IntegrationTime::_800ms, Gain::Two, 300_000),
        65535
    );
    assert_eq!(
        calculate_raw_threshold_value(IntegrationTime::_800ms, Gain::Two, 500_000),
        65535
    );
}

#[test]
fn zero_lux_gives_zero_raw_count() {
    for (gain, _) in GAINS {
        for (it, _) in TIMES {
            assert_eq!(calculate_raw_threshold_value(it, gain, 0), 0);
        }
    }
}

#[test]
fn correction_boundary_is_strict_at_1000_lux() {
    // Exactly 1000 lx: no correction even at low-sensitivity gain.
    assert_eq!(
        calculate_raw_threshold_value(IntegrationTime::_800ms, Gain::OneQuarter, 1_000_000),
        34722
    );
    // The next representable value above 1000 lx: the correction applies
    // and works back to a smaller pre-correction value.
    assert_eq!(
        calculate_raw_threshold_value(IntegrationTime::_800ms, Gain::OneQuarter, 1_000_001),
        32429
    );
}

#[test]
fn no_correction_at_high_sensitivity_gains_above_1000_lux() {
    // Gain 2x and 1x never correct, whatever the target.
    assert_eq!(
        calculate_raw_threshold_value(IntegrationTime::_50ms, Gain::Two, 1_000_001),
        17361
    );
    assert_eq!(
        calculate_raw_threshold_value(IntegrationTime::_50ms, Gain::Two, 1_000_000),
        17361
    );
}

#[test]
fn corrected_threshold_exact_values() {
    // 5000 lx at gain 1/4, 800 ms saturates even after inversion.
    assert_eq!(
        calculate_raw_threshold_value(IntegrationTime::_800ms, Gain::OneQuarter, 5_000_000),
        65535
    );
    // 100 000 lx at gain 1/8, 25 ms: factor 1.8432, inverse 67768.6 lx.
    assert_eq!(
        calculate_raw_threshold_value(IntegrationTime::_25ms, Gain::OneEighth, 100_000_000),
        11857
    );
    // 200 000.001 lx at gain 1/8, 25 ms.
    assert_eq!(
        calculate_raw_threshold_value(IntegrationTime::_25ms, Gain::OneEighth, 200_000_001),
        14276
    );
}

#[test]
fn corrected_threshold_saturates_for_targets_beyond_limit() {
    // 300 000 000 lx is beyond every realistic target; the raw count
    // saturates for every low-sensitivity configuration.
    for (gain, _) in [(Gain::OneQuarter, 8), (Gain::OneEighth, 16)] {
        for (it, _) in TIMES {
            assert_eq!(
                calculate_raw_threshold_value(it, gain, 300_000_000_000),
                65535
            );
        }
    }
}

#[test]
fn threshold_monotone_below_correction_boundary() {
    let ladder: [u64; 5] = [0, 1000, 500_000, 999_999, 1_000_000];
    for (gain, _) in GAINS {
        for (it, _) in TIMES {
            let mut previous: u16 = 0;
            for lux_milli in ladder {
                let raw: u16 = calculate_raw_threshold_value(it, gain, lux_milli);
                assert!(raw >= previous);
                previous = raw;
            }
        }
    }
}

#[test]
fn threshold_monotone_above_correction_boundary() {
    let ladder: [u64; 8] = [
        1_000_001,
        1_500_000,
        2_000_000,
        5_000_000,
        10_000_000,
        1_000_000_000,
        100_000_000_000,
        300_000_000_000,
    ];
    for (gain, _) in GAINS {
        for (it, _) in TIMES {
            let mut previous: u16 = 0;
            for lux_milli in ladder {
                let raw: u16 = calculate_raw_threshold_value(it, gain, lux_milli);
                assert!(raw >= previous);
                previous = raw;
            }
        }
    }
}

#[test]
fn threshold_monotone_across_boundary_at_high_sensitivity() {
    // Gains 2x and 1x never correct, so monotonicity holds across the
    // 1000 lx boundary as well.
    let ladder: [u64; 6] = [0, 999_999, 1_000_000, 1_000_001, 10_000_000, 1_000_000_000];
    for (gain, _) in [(Gain::Two, 1), (Gain::One, 2)] {
        for (it, _) in TIMES {
            let mut previous: u16 = 0;
            for lux_milli in ladder {
                let raw: u16 = calculate_raw_threshold_value(it, gain, lux_milli);
                assert!(raw >= previous);
                previous = raw;
            }
        }
    }
}
