//! The numeric candidates on concrete inputs, including the edge cases of
//! each formula.

use aibench::module_baseline;
use aibench::module_claude;
use aibench::module_copilot;
use aibench::module_deepseek;
use aibench::module_gemini;
use aibench::module_openai;

#[test]
fn sum_of_divisors_of_28_is_56_for_every_variant() {
    assert_eq!(module_baseline::sum_of_divisors(28), 56);
    assert_eq!(module_claude::sum_of_divisors(28), 56);
    assert_eq!(module_copilot::sum_of_divisors(28), 56);
    assert_eq!(module_deepseek::sum_of_divisors(28), 56);
    assert_eq!(module_gemini::sum_of_divisors(28), 56);
    assert_eq!(module_openai::sum_of_divisors(28), 56);
}

#[test]
fn sum_of_divisors_edges() {
    assert_eq!(module_baseline::sum_of_divisors(0), 0);
    assert_eq!(module_baseline::sum_of_divisors(1), 1);
    assert_eq!(module_claude::sum_of_divisors(0), 0);
    assert_eq!(module_claude::sum_of_divisors(1), 1);
    assert_eq!(module_copilot::sum_of_divisors(1), 1);
    assert_eq!(module_gemini::sum_of_divisors(0), 0);
    // 36 is a perfect square: its root must be counted once
    assert_eq!(module_baseline::sum_of_divisors(36), 91);
    assert_eq!(module_copilot::sum_of_divisors(36), 91);
    assert_eq!(module_claude::sum_of_divisors(36), 91);
}

#[test]
fn sum_of_proper_divisors_values() {
    // 28 is perfect: its proper divisors add back up to it
    assert_eq!(module_baseline::sum_of_proper_divisors(28), 28);
    assert_eq!(module_claude::sum_of_proper_divisors(28), 28);
    assert_eq!(module_copilot::sum_of_proper_divisors(28), 28);
    assert_eq!(module_deepseek::sum_of_proper_divisors(28), 28);
    assert_eq!(module_baseline::sum_of_proper_divisors(0), 0);
    assert_eq!(module_baseline::sum_of_proper_divisors(1), 0);
    assert_eq!(module_claude::sum_of_proper_divisors(1), 0);
    assert_eq!(module_copilot::sum_of_proper_divisors(12), 16);
    assert_eq!(module_deepseek::sum_of_proper_divisors(9), 4);
}

#[test]
fn count_primes_values() {
    for f in [
        module_baseline::count_primes,
        module_claude::count_primes,
        module_copilot::count_primes,
        module_deepseek::count_primes,
    ] {
        assert_eq!(f(0), 0);
        assert_eq!(f(2), 0);
        assert_eq!(f(3), 1);
        assert_eq!(f(10), 4);
        assert_eq!(f(100), 25);
        assert_eq!(f(541), 99);
    }
}

#[test]
fn fibonacci_values() {
    assert_eq!(module_baseline::fibonacci(0), 0);
    assert_eq!(module_baseline::fibonacci(1), 1);
    assert_eq!(module_baseline::fibonacci(10), 55);
    assert_eq!(module_baseline::fibonacci(20), 6765);
    assert_eq!(module_copilot::fibonacci(10), 55);
    assert_eq!(module_copilot::fibonacci(93), 12200160415121876738);
    assert_eq!(module_claude::fibonacci(10), 55);
    assert_eq!(module_claude::fibonacci(92), 7540113804746346429);
    assert_eq!(module_claude::fibonacci(93), u64::MAX);
    assert_eq!(module_claude::fibonacci(1000), u64::MAX);
    assert_eq!(module_deepseek::fibonacci(10), 55);
    assert_eq!(module_deepseek::fibonacci(93), 12200160415121876738);
    // beyond index 93 the wrapping variant keeps the value modulo 2^64
    assert_eq!(
        module_deepseek::fibonacci(94),
        7540113804746346429u64.wrapping_add(12200160415121876738)
    );
}

#[test]
fn highly_composite_values() {
    // 4 has 3 divisors; 5 has 2; 6 is the first with more
    assert_eq!(module_baseline::highly_composite(4), 6);
    assert_eq!(module_claude::highly_composite(4), 6);
    assert_eq!(module_copilot::highly_composite(4), 6);
    assert_eq!(module_baseline::highly_composite(6), 12);
    assert_eq!(module_copilot::highly_composite(12), 24);
    assert_eq!(module_claude::highly_composite(0), 1);
    // the rejected attempt always reports 0
    assert_eq!(module_deepseek::highly_composite(4), 0);
}
