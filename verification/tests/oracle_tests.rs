//! The correctness oracle over concrete families.

use aibench::common::NumFunction;
use aibench::common::StrFunction;
use aibench::oracle::check_family;
use aibench::oracle::check_family_str;

#[test]
fn equivalent_sum_variants_never_diverge() {
    let baseline = NumFunction::BaselineSumOfDivisors;
    let candidates = vec![
        NumFunction::ClaudeSumOfDivisors,
        NumFunction::CopilotSumOfDivisors,
        NumFunction::DeepseekSumOfDivisors,
        NumFunction::GeminiSumOfDivisors,
        NumFunction::OpenaiSumOfDivisors,
    ];
    assert!(check_family(&baseline, &candidates, 200).is_none());
}

#[test]
fn equivalent_proper_divisor_variants_never_diverge() {
    let baseline = NumFunction::BaselineSumOfProperDivisors;
    let candidates = vec![
        NumFunction::ClaudeSumOfProperDivisors,
        NumFunction::CopilotSumOfProperDivisors,
        NumFunction::DeepseekSumOfProperDivisors,
    ];
    assert!(check_family(&baseline, &candidates, 200).is_none());
}

#[test]
fn equivalent_prime_count_variants_never_diverge() {
    let baseline = NumFunction::BaselineCountPrimes;
    let candidates = vec![
        NumFunction::ClaudeCountPrimes,
        NumFunction::CopilotCountPrimes,
        NumFunction::DeepseekCountPrimes,
    ];
    assert!(check_family(&baseline, &candidates, 300).is_none());
}

#[test]
fn rejected_attempt_diverges_at_first_nonzero_input() {
    let baseline = NumFunction::BaselineSumOfDivisors;
    let candidates = vec![NumFunction::DeepseekHighlyComposite];
    let divergence = check_family(&baseline, &candidates, 50).unwrap();
    assert_eq!(divergence.candidate, 0);
    assert_eq!(divergence.input, 1);
    assert_eq!(divergence.expected, 1);
    assert_eq!(divergence.actual, 0);
}

#[test]
fn string_family_oracle_flags_the_refused_placeholder() {
    let baseline = StrFunction::Baseline;
    let candidates = vec![
        StrFunction::CopilotV1,
        StrFunction::Claude,
        StrFunction::Gemini,
        StrFunction::Watson,
    ];
    let pairs = vec![
        ("kitten".to_owned(), "sitting".to_owned()),
        ("flour".to_owned(), "flower".to_owned()),
    ];
    let divergence = check_family_str(&baseline, &candidates, &pairs).unwrap();
    assert_eq!(divergence.candidate, 3);
    assert_eq!(divergence.pair, 0);
    assert_eq!(divergence.expected, 3);
    assert_eq!(divergence.actual, 0);
}

#[test]
fn string_family_oracle_accepts_equivalent_variants() {
    let baseline = StrFunction::Baseline;
    let candidates = vec![
        StrFunction::CopilotV1,
        StrFunction::CopilotV2,
        StrFunction::CopilotV3,
        StrFunction::Claude,
        StrFunction::Gemini,
        StrFunction::OpenaiV1,
        StrFunction::OpenaiV2,
        StrFunction::Synthaai,
        StrFunction::Grok,
        StrFunction::Deepseek,
    ];
    let pairs = vec![
        ("kitten".to_owned(), "sitting".to_owned()),
        ("".to_owned(), "abc".to_owned()),
        ("same".to_owned(), "same".to_owned()),
    ];
    assert!(check_family_str(&baseline, &candidates, &pairs).is_none());
}
