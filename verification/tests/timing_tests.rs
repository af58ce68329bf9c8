//! The timing protocol: at least one invocation is always counted, the
//! result is the callable's own, and the deadline is honoured.

use aibench::common::NumFunction;
use aibench::common::StrFunction;
use aibench::timing::run_for_duration;
use aibench::timing::run_for_duration2;
use aibench::timing::time_once;
use aibench::timing::time_once2;

#[test]
fn zero_duration_still_counts_one_invocation() {
    let f = StrFunction::Baseline;
    let (value, measurement) = run_for_duration(&f, "kitten", "sitting", 0);
    assert_eq!(value, 3);
    assert!(measurement.runs >= 1);
}

#[test]
fn zero_duration_numeric_still_counts_one_invocation() {
    let f = NumFunction::BaselineSumOfDivisors;
    let (value, measurement) = run_for_duration2(&f, 28, 0);
    assert_eq!(value, 56);
    assert!(measurement.runs >= 1);
}

#[test]
fn result_is_the_callables_own_output() {
    let f = NumFunction::CopilotFibonacci;
    let (value, _) = run_for_duration2(&f, 20, 0);
    assert_eq!(value, 6765);
    let g = StrFunction::Watson;
    let (placeholder, measurement) = run_for_duration(&g, "kitten", "sitting", 0);
    assert_eq!(placeholder, 0);
    assert!(measurement.runs >= 1);
}

#[test]
fn one_second_run_spins_until_the_deadline() {
    let f = NumFunction::BaselineSumOfDivisors;
    let (value, measurement) = run_for_duration2(&f, 1000, 1);
    assert_eq!(value, 2340);
    assert!(measurement.runs >= 1);
    assert!(measurement.elapsed_nanos >= 1_000_000_000);
}

#[test]
fn single_shot_timing_returns_the_result() {
    let f = StrFunction::Baseline;
    let (value, _elapsed) = time_once(&f, "kitten", "sitting");
    assert_eq!(value, 3);
    let g = NumFunction::BaselineSumOfDivisors;
    let (v2, _e2) = time_once2(&g, 28);
    assert_eq!(v2, 56);
}
