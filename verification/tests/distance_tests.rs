//! Edit-distance candidates on concrete inputs: every registered variant
//! must compute the same textbook distances.

use aibench::baseline;
use aibench::module1;
use aibench::module2;
use aibench::module3;
use aibench::module4;
use aibench::module_baseline;
use aibench::module_claude;
use aibench::module_copilot;
use aibench::module_deepseek;
use aibench::module_gemini;
use aibench::module_grok;
use aibench::module_openai;
use aibench::module_synthaai;
use aibench::module_watson;

#[test]
fn kitten_sitting_is_three() {
    assert_eq!(module_baseline::levenshtein_distance("kitten", "sitting"), 3);
    assert_eq!(module_claude::levenshtein_distance("kitten", "sitting"), 3);
    assert_eq!(module_copilot::levenshtein_distance("kitten", "sitting"), 3);
    assert_eq!(module_copilot::levenshtein_distance2("kitten", "sitting"), 3);
    assert_eq!(module_copilot::levenshtein_distance3("kitten", "sitting"), 3);
    assert_eq!(module_deepseek::levenshtein_distance("kitten", "sitting"), 3);
    assert_eq!(module_gemini::levenshtein_distance("kitten", "sitting"), 3);
    assert_eq!(module_grok::levenshtein_distance("kitten", "sitting"), 3);
    assert_eq!(module_openai::levenshtein_distance("kitten", "sitting"), 3);
    assert_eq!(module_openai::levenshtein_distance2("kitten", "sitting"), 3);
    assert_eq!(module_synthaai::levenshtein_distance("kitten", "sitting"), 3);
    assert_eq!(baseline::levenshtein_distance("kitten", "sitting"), 3);
    assert_eq!(module1::levenshtein_distance("kitten", "sitting"), 3);
    assert_eq!(module2::levenshtein_distance("kitten", "sitting"), 3);
    assert_eq!(module3::levenshtein_distance("kitten", "sitting"), 3);
    assert_eq!(module4::levenshtein_distance("kitten", "sitting"), 3);
}

#[test]
fn empty_inputs() {
    assert_eq!(module_baseline::levenshtein_distance("", ""), 0);
    assert_eq!(module_baseline::levenshtein_distance("", "abc"), 3);
    assert_eq!(module_baseline::levenshtein_distance("abc", ""), 3);
    assert_eq!(module_claude::levenshtein_distance("", "abc"), 3);
    assert_eq!(module_deepseek::levenshtein_distance("abc", ""), 3);
    assert_eq!(module_copilot::levenshtein_distance("", ""), 0);
}

#[test]
fn equal_strings_have_distance_zero() {
    assert_eq!(module_baseline::levenshtein_distance("same", "same"), 0);
    assert_eq!(module_claude::levenshtein_distance("same", "same"), 0);
    assert_eq!(module_deepseek::levenshtein_distance("same", "same"), 0);
}

#[test]
fn swapped_lengths_agree() {
    // this variant swaps so the shorter string drives the rows
    assert_eq!(
        module_claude::levenshtein_distance("longer text here", "hi"),
        module_baseline::levenshtein_distance("longer text here", "hi")
    );
    assert_eq!(
        module_claude::levenshtein_distance("hi", "longer text here"),
        module_claude::levenshtein_distance("longer text here", "hi")
    );
}

#[test]
fn watson_placeholder_reports_zero() {
    assert_eq!(module_watson::levenshtein_distance("kitten", "sitting"), 0);
}

#[test]
fn flour_flower_is_two() {
    assert_eq!(module_baseline::levenshtein_distance("flour", "flower"), 2);
    assert_eq!(module_gemini::levenshtein_distance("flour", "flower"), 2);
    assert_eq!(module_grok::levenshtein_distance("flower", "flour"), 2);
}
