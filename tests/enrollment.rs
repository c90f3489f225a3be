use ctcompute::enrollment::EnrollmentModel;
use ctcompute::error::DesignError;

fn model(times: Vec<i64>, rates: Vec<i64>) -> EnrollmentModel {
    match EnrollmentModel::new(times, rates) {
        Ok(m) => m,
        Err(e) => panic!("unexpected error {:?}", e),
    }
}

#[test]
fn non_monotonic_times_are_refused() {
    let r = EnrollmentModel::new(vec![0, 5, 3], vec![10, 10, 10]);
    assert!(matches!(r, Err(DesignError::InvalidEnrollmentModel)));
}

#[test]
fn repeated_time_is_refused() {
    let r = EnrollmentModel::new(vec![0, 5, 5], vec![10, 10, 10]);
    assert!(matches!(r, Err(DesignError::InvalidEnrollmentModel)));
}

#[test]
fn length_mismatch_is_refused() {
    let r = EnrollmentModel::new(vec![0, 5], vec![10]);
    assert!(matches!(r, Err(DesignError::InvalidEnrollmentModel)));
}

#[test]
fn negative_rate_is_refused() {
    let r = EnrollmentModel::new(vec![0, 5], vec![10, -1]);
    assert!(matches!(r, Err(DesignError::InvalidEnrollmentModel)));
}

#[test]
fn negative_start_time_is_refused() {
    let r = EnrollmentModel::new(vec![-1, 5], vec![10, 10]);
    assert!(matches!(r, Err(DesignError::InvalidEnrollmentModel)));
}

#[test]
fn constant_rate_accumulates_linearly() {
    let m = model(vec![0], vec![10]);
    assert_eq!(m.cumulative_patients(0), 0);
    assert_eq!(m.cumulative_patients(1), 10);
    assert_eq!(m.cumulative_patients(30), 300);
    assert_eq!(m.cumulative_patients(-4), 0);
}

#[test]
fn piecewise_rates_accumulate_per_segment() {
    let m = model(vec![2, 5, 9], vec![10, 20, 3]);
    assert_eq!(m.cumulative_patients(0), 0);
    assert_eq!(m.cumulative_patients(2), 0);
    assert_eq!(m.cumulative_patients(4), 20);
    assert_eq!(m.cumulative_patients(5), 30);
    assert_eq!(m.cumulative_patients(7), 70);
    assert_eq!(m.cumulative_patients(9), 110);
    assert_eq!(m.cumulative_patients(12), 119);
}

#[test]
fn cumulative_is_non_decreasing() {
    let m = model(vec![0, 3, 6], vec![4, 0, 7]);
    let mut prev = m.cumulative_patients(0);
    for t in 1..20 {
        let cur = m.cumulative_patients(t);
        assert!(cur >= prev);
        assert!(cur - prev <= 7);
        prev = cur;
    }
}

#[test]
fn time_for_patients_inverts_cumulative() {
    let m = model(vec![2, 5, 9], vec![10, 20, 3]);
    for t in 3..30 {
        let n = m.cumulative_patients(t);
        assert_eq!(m.time_for_patients(n), Ok(t));
    }
    assert_eq!(m.time_for_patients(0), Ok(0));
    assert_eq!(m.time_for_patients(25), Ok(5));
    assert_eq!(m.time_for_patients(31), Ok(6));
}

#[test]
fn time_for_patients_across_a_pause() {
    let m = model(vec![0, 3, 6], vec![4, 0, 7]);
    assert_eq!(m.time_for_patients(12), Ok(3));
    assert_eq!(m.time_for_patients(13), Ok(7));
}

#[test]
fn time_for_patients_unreachable_when_enrollment_stops() {
    let m = model(vec![0, 5], vec![10, 0]);
    assert_eq!(m.time_for_patients(50), Ok(5));
    assert_eq!(m.time_for_patients(51), Err(DesignError::Unreachable));
}

#[test]
fn empty_model_enrolls_nobody() {
    let m = model(vec![], vec![]);
    assert_eq!(m.cumulative_patients(100), 0);
    assert_eq!(m.time_for_patients(0), Ok(0));
    assert_eq!(m.time_for_patients(1), Err(DesignError::Unreachable));
}

#[test]
fn largest_time_does_not_overflow() {
    let m = model(vec![0], vec![i64::MAX]);
    let expected = (i64::MAX as i128) * (i64::MAX as i128);
    assert_eq!(m.cumulative_patients(i64::MAX), expected);
    assert_eq!(m.time_for_patients(expected), Ok(i64::MAX));
}

#[test]
fn accrual_for_three_hundred_patients() {
    let m = model(vec![0], vec![10]);
    assert_eq!(m.time_for_patients(300), Ok(30));
}

#[test]
fn error_messages_are_not_empty() {
    assert_eq!(DesignError::Unreachable.message(), "the enrollment model never reaches the requested patient count");
    assert_eq!(DesignError::InvalidSpendingFunction.message(), "invalid spending function");
}
