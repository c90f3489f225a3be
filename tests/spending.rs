use ctcompute::error::DesignError;
use ctcompute::spending::{spending_boundary, LookSchedule, SpendingBoundary, PROB_ONE};

const ALPHA: u64 = 25_000_000;

fn looks(f: Vec<u64>) -> LookSchedule {
    match LookSchedule::new(f) {
        Ok(s) => s,
        Err(e) => panic!("unexpected error {:?}", e),
    }
}

#[test]
fn custom_without_spend_is_missing() {
    let s = LookSchedule::single_final();
    let r = spending_boundary(Some("custom"), ALPHA, None, &s);
    assert!(matches!(r, Err(DesignError::MissingCustomSpend)));
}

#[test]
fn custom_with_wrong_length_is_missing() {
    let s = looks(vec![500_000_000, PROB_ONE]);
    let spend = vec![ALPHA];
    let r = spending_boundary(Some("custom"), ALPHA, Some(&spend), &s);
    assert!(matches!(r, Err(DesignError::MissingCustomSpend)));
}

#[test]
fn unknown_selector_is_refused() {
    let s = LookSchedule::single_final();
    let r = spending_boundary(Some("Pocock"), ALPHA, None, &s);
    assert!(matches!(r, Err(DesignError::InvalidSpendingFunction)));
    let r = spending_boundary(Some("ldof"), ALPHA, None, &s);
    assert!(matches!(r, Err(DesignError::InvalidSpendingFunction)));
}

#[test]
fn absent_selector_gives_no_boundary() {
    let s = LookSchedule::single_final();
    let spend = vec![ALPHA];
    let r = spending_boundary(None, ALPHA, Some(&spend), &s);
    assert!(matches!(r, Ok(None)));
}

#[test]
fn ldof_selector_gives_parametric_boundary() {
    let s = LookSchedule::single_final();
    let spend = vec![ALPHA];
    let r = spending_boundary(Some("LDOF"), ALPHA, Some(&spend), &s);
    match r {
        Ok(Some(b)) => {
            assert!(matches!(b, SpendingBoundary::Parametric { alpha } if alpha == ALPHA));
            assert_eq!(b.boundary_value(PROB_ONE), Some(ALPHA));
            assert_eq!(b.boundary_value(500_000_000), None);
        }
        _ => panic!("expected a parametric boundary"),
    }
}

#[test]
fn ldof_with_alpha_out_of_range_is_refused() {
    let s = LookSchedule::single_final();
    let r = spending_boundary(Some("LDOF"), 0, None, &s);
    assert!(matches!(r, Err(DesignError::InvalidParameterRange)));
    let r = spending_boundary(Some("LDOF"), PROB_ONE, None, &s);
    assert!(matches!(r, Err(DesignError::InvalidParameterRange)));
}

#[test]
fn custom_boundary_returns_supplied_values_at_looks() {
    let s = looks(vec![250_000_000, 500_000_000, PROB_ONE]);
    let spend = vec![1_000_000, 7_000_000, ALPHA];
    let r = spending_boundary(Some("custom"), ALPHA, Some(&spend), &s);
    match r {
        Ok(Some(b)) => {
            assert_eq!(b.boundary_value(250_000_000), Some(1_000_000));
            assert_eq!(b.boundary_value(500_000_000), Some(7_000_000));
            assert_eq!(b.boundary_value(PROB_ONE), Some(ALPHA));
            assert_eq!(b.boundary_value(300_000_000), None);
        }
        _ => panic!("expected a custom boundary"),
    }
}

#[test]
fn decreasing_custom_spend_is_refused() {
    let s = looks(vec![500_000_000, PROB_ONE]);
    let spend = vec![20_000_000, 10_000_000];
    let r = spending_boundary(Some("custom"), 10_000_000, Some(&spend), &s);
    assert!(matches!(r, Err(DesignError::InvalidParameterRange)));
}

#[test]
fn custom_spend_must_end_at_alpha() {
    let s = looks(vec![500_000_000, PROB_ONE]);
    let spend = vec![1_000_000, 20_000_000];
    let r = spending_boundary(Some("custom"), ALPHA, Some(&spend), &s);
    assert!(matches!(r, Err(DesignError::InvalidParameterRange)));
}

#[test]
fn look_schedule_must_end_at_full_information() {
    let r = LookSchedule::new(vec![500_000_000, 900_000_000]);
    assert!(matches!(r, Err(DesignError::InvalidParameterRange)));
}

#[test]
fn look_schedule_must_increase() {
    let r = LookSchedule::new(vec![500_000_000, 500_000_000, PROB_ONE]);
    assert!(matches!(r, Err(DesignError::InvalidParameterRange)));
    let r = LookSchedule::new(vec![0, PROB_ONE]);
    assert!(matches!(r, Err(DesignError::InvalidParameterRange)));
    let r = LookSchedule::new(vec![]);
    assert!(matches!(r, Err(DesignError::InvalidParameterRange)));
}

#[test]
fn single_final_look_schedule() {
    let s = LookSchedule::single_final();
    assert_eq!(s.num_looks(), 1);
    assert_eq!(s.fraction(0), PROB_ONE);
    assert_eq!(s.to_vec(), vec![PROB_ONE]);
}
