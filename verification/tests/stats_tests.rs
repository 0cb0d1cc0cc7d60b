use kern::stats::{
    average_cpu_percent, average_memory_percent, detect_trend, estimate_time_to_overheat, Trend,
};
use std::time::Duration;

/// Readings in the library's unit, thousandths of a percent.
fn readings(values: Vec<f32>) -> Vec<i64> {
    values.iter().map(|v| (*v as f64 * 1000.0).round() as i64).collect()
}

/// A result of the library as a percentage.
fn percent(value: i64) -> f32 {
    (value as f64 / 1000.0) as f32
}

#[test]
fn test_average_cpu_percent() {
    assert_eq!(percent(average_cpu_percent(readings(vec![]))), 0.0);
    assert_eq!(percent(average_cpu_percent(readings(vec![10.0]))), 10.0);
    assert_eq!(percent(average_cpu_percent(readings(vec![10.0, 20.0, 30.0]))), 20.0);
}

#[test]
fn test_average_memory_percent() {
    assert_eq!(percent(average_memory_percent(readings(vec![]))), 0.0);
    assert_eq!(percent(average_memory_percent(readings(vec![50.0]))), 50.0);
    assert_eq!(percent(average_memory_percent(readings(vec![40.0, 60.0]))), 50.0);
}

#[test]
fn test_detect_trend() {
    // Empty or single reading
    assert_eq!(detect_trend(readings(vec![])), Trend::Stable);
    assert_eq!(detect_trend(readings(vec![50.0])), Trend::Stable);

    // Rising trend
    assert_eq!(detect_trend(readings(vec![10.0, 20.0, 30.0, 40.0])), Trend::Rising);

    // Falling trend
    assert_eq!(detect_trend(readings(vec![40.0, 30.0, 20.0, 10.0])), Trend::Falling);

    // Stable trend
    assert_eq!(detect_trend(readings(vec![45.0, 50.0, 48.0, 52.0])), Trend::Stable);

    // Small changes within threshold
    assert_eq!(detect_trend(readings(vec![48.0, 52.0, 50.0, 53.0])), Trend::Stable);
}

#[test]
fn test_estimate_time_to_overheat() {
    let duration = Duration::from_secs(estimate_time_to_overheat());
    assert_eq!(duration, Duration::from_secs(300));
}

#[test]
fn mean_rounds_towards_zero() {
    assert_eq!(average_cpu_percent(vec![1, 2]), 1);
    assert_eq!(average_cpu_percent(vec![-1, -2]), -1);
    assert_eq!(average_cpu_percent(vec![-3, 1]), -1);
    assert_eq!(average_memory_percent(vec![7, 8, 9, 11]), 8);
}

#[test]
fn mean_of_extreme_readings_does_not_overflow() {
    assert_eq!(average_cpu_percent(vec![i64::MAX, i64::MAX, i64::MAX]), i64::MAX);
    assert_eq!(average_cpu_percent(vec![i64::MIN, i64::MIN]), i64::MIN);
    assert_eq!(average_cpu_percent(vec![i64::MAX, i64::MIN]), 0);
    assert_eq!(detect_trend(vec![i64::MIN, i64::MAX]), Trend::Rising);
    assert_eq!(detect_trend(vec![i64::MAX, i64::MIN]), Trend::Falling);
}

#[test]
fn trend_threshold_is_exclusive() {
    // The means differ by exactly five percent: stable.
    assert_eq!(detect_trend(vec![10_000, 15_000]), Trend::Stable);
    assert_eq!(detect_trend(vec![15_000, 10_000]), Trend::Stable);
    assert_eq!(detect_trend(vec![10_000, 15_001]), Trend::Rising);
    assert_eq!(detect_trend(vec![15_001, 10_000]), Trend::Falling);
}

#[test]
fn odd_series_put_the_middle_in_the_second_half() {
    // First half [0], second half [0, 12]: mean 6 against 0.
    assert_eq!(detect_trend(vec![0, 0, 12_000]), Trend::Rising);
    // First half [0], second half [12, 0]: the same.
    assert_eq!(detect_trend(vec![0, 12_000, 0]), Trend::Rising);
    // First half [12], second half [0, 0].
    assert_eq!(detect_trend(vec![12_000, 0, 0]), Trend::Falling);
}
