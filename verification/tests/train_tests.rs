use mocasa::error::ErrorKind;
use mocasa::train::{
    n_workers, usable_chains, EstimateUse, TrainControl, TrainPhase, Verdict,
    MSG_NO_CHECK_DUE, MSG_NO_ESTIMATES_DUE, N_WORKERS_MIN,
};

#[test]
fn pool_has_at_least_three_workers() {
    assert_eq!(N_WORKERS_MIN, 3);
    assert_eq!(n_workers(0), 3);
    assert_eq!(n_workers(1), 3);
    assert_eq!(n_workers(3), 3);
    assert_eq!(n_workers(4), 4);
    assert_eq!(n_workers(64), 64);
}

#[test]
fn round_seeds_twice_then_iterates_then_checks() {
    let mut control = TrainControl::new(3, 5);
    assert_eq!(control.phase(), TrainPhase::SeedFirst);
    assert_eq!(control.estimates_received(true).unwrap(), EstimateUse::SeedFirst);
    assert_eq!(control.phase(), TrainPhase::SeedSecond);
    assert_eq!(control.estimates_received(true).unwrap(), EstimateUse::SeedSecond);
    assert_eq!(control.phase(), TrainPhase::Iterating);
    assert_eq!(control.estimates_received(true).unwrap(), EstimateUse::Feed);
    assert_eq!(control.i_iteration(), 1);
    assert_eq!(control.estimates_received(true).unwrap(), EstimateUse::Feed);
    assert_eq!(control.estimates_received(true).unwrap(), EstimateUse::FeedAndCheck);
    assert_eq!(control.i_iteration(), 3);
    assert_eq!(control.phase(), TrainPhase::Checking);
}

#[test]
fn unusable_estimates_are_dropped_and_asked_for_again() {
    let mut control = TrainControl::new(2, 5);
    assert_eq!(control.estimates_received(false).unwrap(), EstimateUse::Discard);
    assert_eq!(control.phase(), TrainPhase::SeedFirst);
    control.estimates_received(true).unwrap();
    assert_eq!(control.estimates_received(false).unwrap(), EstimateUse::Discard);
    assert_eq!(control.phase(), TrainPhase::SeedSecond);
    control.estimates_received(true).unwrap();
    assert_eq!(control.estimates_received(false).unwrap(), EstimateUse::Discard);
    assert_eq!(control.i_iteration(), 0);
    assert_eq!(control.phase(), TrainPhase::Iterating);
}

fn run_round(control: &mut TrainControl, n_iterations: usize) {
    assert_eq!(control.estimates_received(true).unwrap(), EstimateUse::SeedFirst);
    assert_eq!(control.estimates_received(true).unwrap(), EstimateUse::SeedSecond);
    for i in 0..n_iterations {
        let expected =
            if i + 1 == n_iterations { EstimateUse::FeedAndCheck } else { EstimateUse::Feed };
        assert_eq!(control.estimates_received(true).unwrap(), expected);
    }
}

#[test]
fn agreement_and_precision_end_the_run() {
    let mut control = TrainControl::new(2, 5);
    run_round(&mut control, 2);
    assert_eq!(control.check(true, true).unwrap(), Verdict::Converged);
    assert!(control.is_done());
    assert_eq!(control.i_round(), 0);
}

#[test]
fn agreement_without_precision_adopts_and_goes_on() {
    let mut control = TrainControl::new(2, 5);
    run_round(&mut control, 2);
    assert_eq!(control.check(true, false).unwrap(), Verdict::NextRound { adopt: true });
    assert!(!control.is_done());
    assert_eq!(control.i_round(), 1);
    assert_eq!(control.i_iteration(), 0);
    assert_eq!(control.phase(), TrainPhase::SeedFirst);
}

#[test]
fn disagreement_goes_on_without_adopting() {
    let mut control = TrainControl::new(2, 5);
    run_round(&mut control, 2);
    assert_eq!(control.check(false, true).unwrap(), Verdict::NextRound { adopt: false });
    run_round(&mut control, 2);
    assert_eq!(control.check(false, false).unwrap(), Verdict::NextRound { adopt: false });
    assert_eq!(control.i_round(), 2);
}

#[test]
fn run_ends_when_the_rounds_are_used_up() {
    let mut control = TrainControl::new(1, 2);
    run_round(&mut control, 1);
    assert_eq!(control.check(false, false).unwrap(), Verdict::NextRound { adopt: false });
    run_round(&mut control, 1);
    assert_eq!(control.check(true, false).unwrap(), Verdict::NextRound { adopt: true });
    run_round(&mut control, 1);
    assert_eq!(control.check(true, false).unwrap(), Verdict::OutOfRounds { adopt: true });
    assert!(control.is_done());
    assert_eq!(control.i_round(), 2);
}

#[test]
fn run_without_further_rounds_ends_at_the_first_check() {
    let mut control = TrainControl::new(1, 0);
    run_round(&mut control, 1);
    assert_eq!(control.check(false, false).unwrap(), Verdict::OutOfRounds { adopt: false });
    assert!(control.is_done());
}

#[test]
fn round_without_iterations_checks_after_the_first_sample() {
    let mut control = TrainControl::new(0, 1);
    control.estimates_received(true).unwrap();
    control.estimates_received(true).unwrap();
    assert_eq!(control.estimates_received(true).unwrap(), EstimateUse::FeedAndCheck);
}

#[test]
fn control_refuses_what_is_not_due() {
    let mut control = TrainControl::new(1, 1);
    let error = control.check(true, true).unwrap_err();
    assert_eq!(error.kind, ErrorKind::Mocasa);
    assert_eq!(error.message, MSG_NO_CHECK_DUE);
    run_round(&mut control, 1);
    let error = control.estimates_received(true).unwrap_err();
    assert_eq!(error.kind, ErrorKind::Mocasa);
    assert_eq!(error.message, MSG_NO_ESTIMATES_DUE);
    control.check(true, true).unwrap();
    assert_eq!(control.estimates_received(true).unwrap_err().message, MSG_NO_ESTIMATES_DUE);
    assert_eq!(control.check(true, true).unwrap_err().message, MSG_NO_CHECK_DUE);
}

#[test]
fn run_never_takes_more_rounds_than_allowed() {
    for n_rounds in 0..5usize {
        let mut control = TrainControl::new(2, n_rounds);
        let mut n_checks = 0usize;
        while !control.is_done() {
            run_round(&mut control, 2);
            control.check(false, false).unwrap();
            n_checks += 1;
            assert!(control.i_round() <= n_rounds);
        }
        assert_eq!(n_checks, n_rounds + 1);
    }
}

#[test]
fn usable_chains_are_the_valid_ones_in_order() {
    assert_eq!(usable_chains(&vec![true, false, true, true], 3), Some(vec![0, 2, 3]));
    assert_eq!(usable_chains(&vec![true, false, true, true], 4), None);
    assert_eq!(usable_chains(&vec![false, false], 0), None);
    assert_eq!(usable_chains(&vec![false, true], 0), Some(vec![1]));
    assert_eq!(usable_chains(&vec![false, true], 1), Some(vec![1]));
    assert_eq!(usable_chains(&vec![], 0), None);
    assert_eq!(usable_chains(&vec![true, true, true], 3), Some(vec![0, 1, 2]));
}
