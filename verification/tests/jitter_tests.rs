use coolbar::config::{PollingRate, JITTER_RESOLUTION, MIN_INTERVAL_MICROS};

#[test]
fn ratio_varied_samples_stay_in_the_variance_band() {
    let rate = PollingRate::VariedByRatio { interval: 2_000_000, variance: 250_000 };
    for _ in 0..10_000 {
        let d = rate.sample();
        assert!(d >= 1_500_000, "sample below the band: {d}");
        assert!(d <= 2_500_000, "sample above the band: {d}");
        assert!(d >= MIN_INTERVAL_MICROS);
    }
}

#[test]
fn constant_rate_returns_the_interval() {
    let rate = PollingRate::Constant { interval: 5_000_000 };
    assert_eq!(rate.to_duration(0), 5_000_000);
    assert_eq!(rate.to_duration(JITTER_RESOLUTION), 5_000_000);
    assert_eq!(rate.sample(), 5_000_000);
}

#[test]
fn zero_interval_is_floored_at_the_minimum() {
    let rate = PollingRate::Constant { interval: 0 };
    assert_eq!(rate.to_duration(0), MIN_INTERVAL_MICROS);
}

#[test]
fn ratio_extremes_hit_the_band_edges() {
    let rate = PollingRate::VariedByRatio { interval: 2_000_000, variance: 250_000 };
    assert_eq!(rate.to_duration(JITTER_RESOLUTION), 2_500_000);
    assert_eq!(rate.to_duration(-JITTER_RESOLUTION), 1_500_000);
    assert_eq!(rate.to_duration(0), 2_000_000);
}

#[test]
fn ratio_variance_is_clamped_to_one() {
    let rate = PollingRate::VariedByRatio { interval: 1_000, variance: 5_000_000 };
    assert_eq!(rate.to_duration(-JITTER_RESOLUTION), MIN_INTERVAL_MICROS);
    assert_eq!(rate.to_duration(JITTER_RESOLUTION), 2_000);
}

#[test]
fn duration_varied_offsets_by_the_scaled_variance() {
    let rate = PollingRate::VariedByDuration { interval: 10_000, variance: 4_000 };
    assert_eq!(rate.to_duration(JITTER_RESOLUTION), 14_000);
    assert_eq!(rate.to_duration(-JITTER_RESOLUTION), 6_000);
    assert_eq!(rate.to_duration(JITTER_RESOLUTION / 2), 12_000);
}

#[test]
fn duration_varied_underflow_is_floored() {
    let rate = PollingRate::VariedByDuration { interval: 1_000, variance: 2_000 };
    assert_eq!(rate.to_duration(-JITTER_RESOLUTION), MIN_INTERVAL_MICROS);
}
