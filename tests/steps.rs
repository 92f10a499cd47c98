use hopf::fibre::{Chord, FibreBuildError, StepAction, StepControl};

#[test]
fn no_tries_is_too_low() {
    assert_eq!(StepControl::new(10, 0), Err(FibreBuildError::NTriesTooLow(0)));
    let c = StepControl::new(10, 3).unwrap();
    assert_eq!(c.accepted, 1);
    assert_eq!(c.tries, 0);
    assert!(!c.finished);
    assert!(StepControl::new(1, 3).unwrap().finished);
}

/// Runs the control with every candidate in band; counts the samples kept.
fn count_in_band(n: u16) -> u16 {
    let mut c = StepControl::new(n, 5).unwrap();
    let mut points = 1_u16;
    while !c.finished {
        match c.step(Chord::InBand, false) {
            Ok(StepAction::Accept) | Ok(StepAction::Finish) => points += 1,
            other => panic!("{other:?}"),
        }
    }
    points
}

#[test]
fn resample_count_is_exact() {
    for n in [10_u16, 100, 1000] {
        assert_eq!(count_in_band(n), n);
    }
}

#[test]
fn step_adjusts_then_accepts() {
    let mut c = StepControl::new(3, 2).unwrap();
    assert_eq!(c.step(Chord::TooLong, false), Ok(StepAction::Shrink));
    assert_eq!(c.step(Chord::TooShort, false), Ok(StepAction::Grow));
    assert_eq!(c.tries, 2);
    assert_eq!(c.step(Chord::InBand, false), Ok(StepAction::Accept));
    assert_eq!(c.tries, 0);
    assert_eq!(c.accepted, 2);
    assert_eq!(c.step(Chord::TooShort, true), Ok(StepAction::Finish));
    assert_eq!(c.accepted, 3);
    assert!(c.finished);
}

#[test]
fn oscillation_exceeds_tries() {
    let mut c = StepControl::new(10, 2).unwrap();
    assert_eq!(c.step(Chord::TooLong, false), Ok(StepAction::Shrink));
    assert_eq!(c.step(Chord::TooShort, false), Ok(StepAction::Grow));
    assert_eq!(c.step(Chord::TooLong, false), Err(FibreBuildError::NTriesExceed(2)));
    assert!(c.finished);
}

#[test]
fn end_reached_early_fails() {
    let mut c = StepControl::new(10, 2).unwrap();
    assert_eq!(c.step(Chord::InBand, false), Ok(StepAction::Accept));
    assert_eq!(c.step(Chord::TooShort, true), Err(FibreBuildError::DomainExhausted(3)));
    assert!(c.finished);
    assert_eq!(c.accepted, 2);
}
