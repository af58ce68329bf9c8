//! The aggregator and the rendering: grouping, the separation of
//! disqualified rows, the ranking directions, and the rendered cells.

use aibench::common::AICodeGenStatus;
use aibench::common::Date;
use aibench::report::BenchmarkMode;
use aibench::report::BenchmarkResult;
use aibench::report::date_label;
use aibench::report::group_results;
use aibench::report::order_family;
use aibench::report::rate_label;
use aibench::report::sorted_results;
use aibench::report::speedup_label;
use aibench::harness::baseline_sentinel;
use aibench::harness::none_sentinel;

fn row(
    engine: &str,
    family: &str,
    status: AICodeGenStatus,
    value: u64,
    runs: u64,
    elapsed_nanos: u64,
    speedup: &str,
) -> BenchmarkResult {
    BenchmarkResult {
        engine_name: engine.to_owned(),
        function_name: family.to_owned(),
        date: Date { year: 2025, month: 1, day: 2 },
        status,
        value,
        runs,
        elapsed_nanos,
        speedup: speedup.to_owned(),
    }
}

#[test]
fn two_candidates_speedup_and_sentinel() {
    // baseline took 1,000,000 ns for one run, the candidate 500,000 ns:
    // the candidate's rendered speedup is exactly twice the baseline
    let label = speedup_label(1, 1_000_000, 1, 500_000);
    assert_eq!(label.as_str(), "2.0x");
    assert_eq!(baseline_sentinel().as_str(), "-----");
}

#[test]
fn refused_zero_row_sits_above_ranked_rows() {
    // a refused candidate with placeholder value 0 and elapsed time 0 never
    // joins the ranked block, even though its metric would sort first
    let rows = vec![
        row("a", "f", AICodeGenStatus::FirstTryOk, 7, 1, 2_000, "-----"),
        row("w", "f", AICodeGenStatus::AIRefusedToAnswer, 0, 0, 0, "none"),
        row("b", "f", AICodeGenStatus::FirstTryOk, 7, 1, 1_000, "2.0x"),
    ];
    let (ordered, boundary) = order_family(rows, BenchmarkMode::Latency);
    assert_eq!(boundary, 1);
    assert_eq!(ordered[0].engine_name.as_str(), "w");
    assert_eq!(ordered[1].engine_name.as_str(), "b");
    assert_eq!(ordered[2].engine_name.as_str(), "a");
}

#[test]
fn latency_ranking_is_nondecreasing() {
    let rows = vec![
        row("slow", "f", AICodeGenStatus::FirstTryOk, 1, 1, 9_000, "x"),
        row("fast", "f", AICodeGenStatus::FirstTryOk, 1, 1, 1_000, "x"),
        row("mid", "f", AICodeGenStatus::FirstTryOk, 1, 1, 5_000, "x"),
    ];
    let (ordered, boundary) = order_family(rows, BenchmarkMode::Latency);
    assert_eq!(boundary, 0);
    assert_eq!(ordered[0].engine_name.as_str(), "fast");
    assert_eq!(ordered[1].engine_name.as_str(), "mid");
    assert_eq!(ordered[2].engine_name.as_str(), "slow");
}

#[test]
fn throughput_ranking_is_nonincreasing() {
    // rates: 2000/s, 9000/s, 5000/s measured over one second each
    let rows = vec![
        row("low", "f", AICodeGenStatus::FirstTryOk, 1, 2_000, 1_000_000_000, "x"),
        row("high", "f", AICodeGenStatus::FirstTryOk, 1, 9_000, 1_000_000_000, "x"),
        row("mid", "f", AICodeGenStatus::FirstTryOk, 1, 5_000, 1_000_000_000, "x"),
    ];
    let (ordered, boundary) = order_family(rows, BenchmarkMode::Throughput);
    assert_eq!(boundary, 0);
    assert_eq!(ordered[0].engine_name.as_str(), "high");
    assert_eq!(ordered[1].engine_name.as_str(), "mid");
    assert_eq!(ordered[2].engine_name.as_str(), "low");
}

#[test]
fn disqualified_statuses_form_one_block() {
    let rows = vec![
        row("a", "f", AICodeGenStatus::FirstTryOk, 1, 1, 4_000, "x"),
        row("b", "f", AICodeGenStatus::CompileError, 1, 1, 1_000, "none"),
        row("c", "f", AICodeGenStatus::SecondTryOk, 1, 1, 3_000, "x"),
        row("d", "f", AICodeGenStatus::IncorrectResult, 1, 1, 2_000, "none"),
    ];
    let (ordered, boundary) = order_family(rows, BenchmarkMode::Latency);
    assert_eq!(boundary, 2);
    assert_eq!(ordered[0].engine_name.as_str(), "b");
    assert_eq!(ordered[1].engine_name.as_str(), "d");
    assert_eq!(ordered[2].engine_name.as_str(), "c");
    assert_eq!(ordered[3].engine_name.as_str(), "a");
}

#[test]
fn groups_collect_rows_by_family() {
    let rows = vec![
        row("a", "fib", AICodeGenStatus::FirstTryOk, 1, 1, 1, "x"),
        row("b", "sum", AICodeGenStatus::FirstTryOk, 1, 1, 1, "x"),
        row("c", "fib", AICodeGenStatus::FirstTryOk, 1, 1, 1, "x"),
    ];
    let groups = group_results(rows);
    assert_eq!(groups.len(), 2);
    assert_eq!(groups[0].function_name.as_str(), "fib");
    assert_eq!(groups[0].results.len(), 2);
    assert_eq!(groups[0].results[0].engine_name.as_str(), "a");
    assert_eq!(groups[0].results[1].engine_name.as_str(), "c");
    assert_eq!(groups[1].function_name.as_str(), "sum");
    assert_eq!(groups[1].results.len(), 1);
}

#[test]
fn sorted_results_orders_each_family() {
    let rows = vec![
        row("a", "fib", AICodeGenStatus::FirstTryOk, 1, 1, 5_000, "x"),
        row("b", "sum", AICodeGenStatus::AIRefusedToAnswer, 0, 0, 0, "none"),
        row("c", "fib", AICodeGenStatus::FirstTryOk, 1, 1, 1_000, "x"),
        row("d", "sum", AICodeGenStatus::FirstTryOk, 1, 1, 1_000, "x"),
    ];
    let reports = sorted_results(rows, BenchmarkMode::Latency);
    assert_eq!(reports.len(), 2);
    assert_eq!(reports[0].function_name.as_str(), "fib");
    assert_eq!(reports[0].boundary, 0);
    assert_eq!(reports[0].rows[0].engine_name.as_str(), "c");
    assert_eq!(reports[0].rows[1].engine_name.as_str(), "a");
    assert_eq!(reports[1].function_name.as_str(), "sum");
    assert_eq!(reports[1].boundary, 1);
    assert_eq!(reports[1].rows[0].engine_name.as_str(), "b");
    assert_eq!(reports[1].rows[1].engine_name.as_str(), "d");
}

#[test]
fn speedup_handles_degenerate_baseline() {
    // a baseline with no elapsed time has no rate: the guard yields the
    // defined zero sentinel instead of an unbounded ratio
    assert_eq!(speedup_label(0, 0, 1, 500).as_str(), "0.0x");
    // a candidate with no elapsed time has no rate either
    assert_eq!(speedup_label(1, 1_000, 1, 0).as_str(), "0.0x");
}

#[test]
fn speedup_fractional_values() {
    // candidate at half the baseline's rate
    assert_eq!(speedup_label(1, 1_000, 1, 2_000).as_str(), "0.5x");
    // candidate 50% faster
    assert_eq!(speedup_label(2, 1_000_000, 3, 1_000_000).as_str(), "1.5x");
}

#[test]
fn rate_label_renders_two_decimals() {
    // 5 runs in 2 seconds: 2.50 invocations per second
    assert_eq!(rate_label(5, 2_000_000_000).as_str(), "2.50");
    assert_eq!(rate_label(1, 1_000_000_000).as_str(), "1.00");
    assert_eq!(rate_label(0, 0).as_str(), "0.00");
    assert_eq!(rate_label(1_000, 1_000_000_000).as_str(), "1000.00");
}

#[test]
fn date_label_renders_padded() {
    let d = Date::from_ymd_opt(2025, 1, 2).unwrap();
    assert_eq!(date_label(&d).as_str(), "2025-01-02");
    let d2 = Date::from_ymd_opt(2024, 12, 31).unwrap();
    assert_eq!(date_label(&d2).as_str(), "2024-12-31");
}

#[test]
fn status_labels() {
    assert_eq!(AICodeGenStatus::FirstTryOk.label(), "Ok");
    assert_eq!(AICodeGenStatus::CompileError.label(), "CompileError");
    assert_eq!(AICodeGenStatus::SecondTryOk.label(), "SecondTryOk");
    assert_eq!(AICodeGenStatus::SecondTryCompileError.label(), "SecondTryCompileError");
    assert_eq!(AICodeGenStatus::IncorrectResult.label(), "IncorrectResult");
    assert_eq!(AICodeGenStatus::AIRefusedToAnswer.label(), "AIRefusedToAnswer");
    assert!(AICodeGenStatus::FirstTryOk.is_eligible());
    assert!(AICodeGenStatus::SecondTryOk.is_eligible());
    assert!(!AICodeGenStatus::AIRefusedToAnswer.is_eligible());
    assert!(!AICodeGenStatus::IncorrectResult.is_eligible());
    assert_eq!(none_sentinel().as_str(), "none");
}
