//! The harness end to end on tiny runs: the baseline row carries the
//! sentinel, candidates are labelled against their own family's baseline,
//! and placeholders are marked.

use aibench::harness::run_benchmarks;
use aibench::harness::run_benchmarks2;
use aibench::module_baseline;
use aibench::module_gemini;
use aibench::module_openai;
use aibench::module_watson;

#[test]
fn string_benchmark_labels_baseline_and_candidates() {
    let modules = vec![
        module_baseline::get_candidates(),
        module_openai::get_candidates(),
        module_watson::get_candidates(),
    ];
    let results = run_benchmarks(modules, "kitten", "sitting", 0);
    assert_eq!(results.len(), 4);
    // the baseline row always shows the fixed sentinel, never a ratio
    assert_eq!(results[0].speedup.as_str(), "-----");
    assert_eq!(results[0].engine_name.as_str(), "Baseline");
    assert_eq!(results[0].value, 3);
    assert!(results[0].runs >= 1);
    // real candidates carry a computed multiplier label
    assert_eq!(results[1].engine_name.as_str(), "ChatGPT, version 2");
    assert_eq!(results[1].value, 3);
    assert!(results[1].speedup.as_str().ends_with('x'));
    assert!(results[2].speedup.as_str().ends_with('x'));
    // the refused placeholder computes 0 and gets no speedup at all
    assert_eq!(results[3].engine_name.as_str(), "watson");
    assert_eq!(results[3].value, 0);
    assert_eq!(results[3].runs, 0);
    assert_eq!(results[3].elapsed_nanos, 0);
    assert_eq!(results[3].speedup.as_str(), "none");
}

#[test]
fn numeric_benchmark_uses_per_family_baselines() {
    let modules = vec![
        module_baseline::get_candidates2(),
        module_gemini::get_candidates2(),
        module_openai::get_candidates2(),
    ];
    let results = run_benchmarks2(modules, 28, 0);
    assert_eq!(results.len(), 7);
    // five baseline rows, one per family, all with the sentinel
    for k in 0..5 {
        assert_eq!(results[k].speedup.as_str(), "-----");
        assert_eq!(results[k].engine_name.as_str(), "Baseline");
    }
    assert_eq!(results[0].function_name.as_str(), "sum of divisors");
    assert_eq!(results[0].value, 56);
    // the sum-of-divisors candidates share the baseline family label and
    // carry a computed label against that family's baseline
    assert_eq!(results[5].engine_name.as_str(), "gemini 2.5 Pro");
    assert_eq!(results[5].function_name.as_str(), "sum of divisors");
    assert_eq!(results[5].value, 56);
    assert!(results[5].speedup.as_str().ends_with('x'));
    assert_eq!(results[6].engine_name.as_str(), "ChatGPT, version 2");
    assert_eq!(results[6].value, 56);
    assert!(results[6].speedup.as_str().ends_with('x'));
}
