//! Candidate implementations attributed to the Deepseek engine.

use vstd::prelude::*;
use crate::common::AICodeGenStatus;
use crate::common::CandidateInfo2;
use crate::common::CandidateInfo;
use crate::common::Date;
use crate::common::NumFunction;
use crate::common::StrFunction;

use crate::arith;
use crate::distance;

verus! {

/// Edit distance keeping a single row of the table in place.
pub fn levenshtein_distance(s: &str, t: &str) -> (r: usize)
    requires
        s.is_ascii(),
        t.is_ascii(),
        s@.len() + t@.len() < usize::MAX,
    ensures
        r == distance::lev(s@, t@),
{
    distance::lev_single_row(s, t)
}

/// Sum of all divisors of `n`, pairing each divisor below the square root
/// with its cofactor.
pub fn sum_of_divisors(n: u64) -> (r: u64)
    requires
        arith::sigma(n as nat) <= u64::MAX,
    ensures
        r == arith::sigma(n as nat),
{
    if n == 0 {
        return 0;
    }
    let mut sum: u64 = 0;
    let mut i: u64 = 1;
    while i <= n / i
        invariant
            1 <= i,
            1 <= n,
            (i - 1) * (i - 1) <= n,
            sum == arith::pair_sum(n as nat, (i - 1) as nat),
            arith::sigma(n as nat) <= u64::MAX,
        decreases n - i + 1,
    {
        proof {
            vstd::arithmetic::div_mod::lemma_fundamental_div_mod(n as int, i as int);
            assert(i * i <= n && i < u64::MAX) by (nonlinear_arith)
                requires
                    1 <= i,
                    i <= n / i,
                    n == i * (n / i) + n % i,
                    n % i < i,
                    n <= u64::MAX,
            {
            }
            arith::lemma_pair_sum_le_sigma(n as nat, i as nat);
            if n % i == 0 {
                assert((i != n / i) <==> (i * i < n)) by (nonlinear_arith)
                    requires
                        1 <= i,
                        n == i * (n / i) + n % i,
                        n % i == 0,
                        i * i <= n,
                {
                }
            }
        }
        if n % i == 0 {
            sum = sum + i;
            if i != n / i {
                sum = sum + n / i;
            }
        }
        i = i + 1;
    }
    proof {
        vstd::arithmetic::div_mod::lemma_fundamental_div_mod(n as int, i as int);
        assert(n < i * i) by (nonlinear_arith)
            requires
                1 <= i,
                i > n / i,
                n == i * (n / i) + n % i,
                n % i < i,
        {
        }
        arith::lemma_pair_sum_sigma(n as nat, (i - 1) as nat);
    }
    sum
}

/// Number of primes below `n`, by the sieve of Eratosthenes.
pub fn count_primes(n: u64) -> (r: u64)
    requires
        n <= usize::MAX,
    ensures
        r == arith::prime_count(n as nat),
{
    arith::prime_sieve_count(n)
}

/// The `n`th Fibonacci number reduced modulo the 64-bit range, computed with
/// wrapping additions so every index is accepted.
pub fn fibonacci(n: u64) -> (r: u64)
    ensures
        r == arith::fib_mod(n as nat),
{
    let mut a: u64 = 0;
    let mut b: u64 = 1;
    let mut k: u64 = 0;
    proof {
        vstd::arithmetic::div_mod::lemma_small_mod(0, 0x1_0000_0000_0000_0000);
        vstd::arithmetic::div_mod::lemma_small_mod(1, 0x1_0000_0000_0000_0000);
    }
    while k < n
        invariant
            k <= n,
            a == arith::fib_mod(k as nat),
            b == arith::fib_mod((k + 1) as nat),
        decreases n - k,
    {
        proof {
            arith::lemma_fib_mod_step((k + 2) as nat);
            if a + b > u64::MAX {
                vstd::arithmetic::div_mod::lemma_fundamental_div_mod(
                    (a + b) as int,
                    0x1_0000_0000_0000_0000,
                );
                assert((a + b) % 0x1_0000_0000_0000_0000 == a + b - 0x1_0000_0000_0000_0000)
                    by (nonlinear_arith)
                    requires
                        a + b == 0x1_0000_0000_0000_0000 * ((a + b) / 0x1_0000_0000_0000_0000) + (a
                            + b) % 0x1_0000_0000_0000_0000,
                        0 <= (a + b) % 0x1_0000_0000_0000_0000 < 0x1_0000_0000_0000_0000,
                        0x1_0000_0000_0000_0000 <= a + b < 0x2_0000_0000_0000_0000,
                {
                }
            } else {
                vstd::arithmetic::div_mod::lemma_small_mod(
                    (a + b) as nat,
                    0x1_0000_0000_0000_0000,
                );
            }
        }
        let c = a.wrapping_add(b);
        a = b;
        b = c;
        k = k + 1;
    }
    a
}

/// Placeholder from a rejected attempt: this candidate always reports 0 and
/// is listed with an incorrect-result status.
pub fn highly_composite(n: u64) -> (r: u64)
    ensures
        r == 0,
{
    0
}

/// Sum of the proper divisors of `n`, by pairing below the square root with
/// `n` itself left out.
pub fn sum_of_proper_divisors(n: u64) -> (r: u64)
    requires
        arith::sigma(n as nat) <= u64::MAX,
    ensures
        r == arith::sigma_proper(n as nat),
{
    if n <= 1 {
        return 0;
    }
    proof {
        assert(arith::pair_sum(n as nat, 0) == 0);
        assert(arith::pair_sum(n as nat, 1) == 1 + n);
        arith::lemma_sigma_proper(n as nat);
    }
    let mut sum: u64 = 1;
    let mut i: u64 = 2;
    while i <= n / i
        invariant
            2 <= i,
            2 <= n,
            (i - 1) * (i - 1) <= n,
            sum + n == arith::pair_sum(n as nat, (i - 1) as nat),
            arith::sigma(n as nat) <= u64::MAX,
            arith::sigma(n as nat) == arith::sigma_proper(n as nat) + n,
        decreases n - i + 1,
    {
        proof {
            vstd::arithmetic::div_mod::lemma_fundamental_div_mod(n as int, i as int);
            assert(i * i <= n && i < u64::MAX) by (nonlinear_arith)
                requires
                    1 <= i,
                    i <= n / i,
                    n == i * (n / i) + n % i,
                    n % i < i,
                    n <= u64::MAX,
            {
            }
            arith::lemma_pair_sum_le_sigma(n as nat, i as nat);
            if n % i == 0 {
                assert((i != n / i) <==> (i * i < n)) by (nonlinear_arith)
                    requires
                        1 <= i,
                        n == i * (n / i) + n % i,
                        n % i == 0,
                        i * i <= n,
                {
                }
            }
        }
        if n % i == 0 {
            let j = n / i;
            if i == j {
                sum = sum + i;
            } else {
                sum = sum + i;
                sum = sum + j;
            }
        }
        i = i + 1;
    }
    proof {
        vstd::arithmetic::div_mod::lemma_fundamental_div_mod(n as int, i as int);
        assert(n < i * i) by (nonlinear_arith)
            requires
                1 <= i,
                i > n / i,
                n == i * (n / i) + n % i,
                n % i < i,
        {
        }
        arith::lemma_pair_sum_sigma(n as nat, (i - 1) as nat);
    }
    sum
}


/// This engine's registry record for the edit-distance family.
pub fn get_candidates() -> (r: CandidateInfo)
    ensures
        r.wf(),
        r.engine_name@ == "deepseek R1"@,
        r.function_names@.len() == 1,
        r.function_names@[0]@ == "levenshstein distance"@,
        r.dates@ == seq![Date { year: 2025, month: 1, day: 25 }],
        r.status@ == seq![AICodeGenStatus::FirstTryOk],
        r.functions@ == seq![StrFunction::Deepseek],
{
    CandidateInfo::new(
        "deepseek R1".to_owned(),
        vec![
            "levenshstein distance".to_owned(),
        ],
        vec![
            Date { year: 2025, month: 1, day: 25 },
        ],
        vec![
            AICodeGenStatus::FirstTryOk,
        ],
        vec![
            StrFunction::Deepseek,
        ],
    )
}

/// This engine's registry record for the numeric families.
pub fn get_candidates2() -> (r: CandidateInfo2)
    ensures
        r.wf(),
        r.engine_name@ == "deepseek R1"@,
        r.function_names@.len() == 5,
        r.function_names@[0]@ == "sum of divisors"@,
        r.function_names@[1]@ == "count of primes"@,
        r.function_names@[2]@ == "fibonacci"@,
        r.function_names@[3]@ == "highly composite"@,
        r.function_names@[4]@ == "sum of proper divisors"@,
        r.dates@ == seq![Date { year: 2025, month: 1, day: 25 }, Date { year: 2025, month: 1, day: 25 }, Date { year: 2025, month: 1, day: 25 }, Date { year: 2025, month: 1, day: 25 }, Date { year: 2025, month: 1, day: 25 }],
        r.status@ == seq![AICodeGenStatus::SecondTryOk, AICodeGenStatus::FirstTryOk, AICodeGenStatus::FirstTryOk, AICodeGenStatus::IncorrectResult, AICodeGenStatus::FirstTryOk],
        r.functions@ == seq![NumFunction::DeepseekSumOfDivisors, NumFunction::DeepseekCountPrimes, NumFunction::DeepseekFibonacci, NumFunction::DeepseekHighlyComposite, NumFunction::DeepseekSumOfProperDivisors],
{
    CandidateInfo2::new(
        "deepseek R1".to_owned(),
        vec![
            "sum of divisors".to_owned(),
            "count of primes".to_owned(),
            "fibonacci".to_owned(),
            "highly composite".to_owned(),
            "sum of proper divisors".to_owned(),
        ],
        vec![
            Date { year: 2025, month: 1, day: 25 },
            Date { year: 2025, month: 1, day: 25 },
            Date { year: 2025, month: 1, day: 25 },
            Date { year: 2025, month: 1, day: 25 },
            Date { year: 2025, month: 1, day: 25 },
        ],
        vec![
            AICodeGenStatus::SecondTryOk,
            AICodeGenStatus::FirstTryOk,
            AICodeGenStatus::FirstTryOk,
            AICodeGenStatus::IncorrectResult,
            AICodeGenStatus::FirstTryOk,
        ],
        vec![
            NumFunction::DeepseekSumOfDivisors,
            NumFunction::DeepseekCountPrimes,
            NumFunction::DeepseekFibonacci,
            NumFunction::DeepseekHighlyComposite,
            NumFunction::DeepseekSumOfProperDivisors,
        ],
    )
}

} // verus!
