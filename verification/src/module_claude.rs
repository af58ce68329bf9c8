//! Candidate implementations attributed to the Sonnet engine.

use vstd::prelude::*;
use crate::common::AICodeGenStatus;
use crate::common::CandidateInfo2;
use crate::common::CandidateInfo;
use crate::common::Date;
use crate::common::NumFunction;
use crate::common::StrFunction;
use vstd::string::StringSliceAdditionalSpecFns;

use crate::arith;
use crate::distance;

verus! {

broadcast use vstd::string::group_string_axioms, vstd::string::is_ascii_spec_bytes;

/// Edit distance by two rolling rows, after swapping so the shorter string
/// indexes the rows.
pub fn levenshtein_distance(s: &str, t: &str) -> (r: usize)
    requires
        s.is_ascii(),
        t.is_ascii(),
        s@.len() + t@.len() < usize::MAX,
    ensures
        r == distance::lev(s@, t@),
    decreases (if s@.len() > t@.len() {
        1int
    } else {
        0int
    }),
{
    if s.len() > t.len() {
        proof {
            distance::lemma_lev_sym(s@, t@);
        }
        return levenshtein_distance(t, s);
    }
    distance::lev_two_rows(s, t)
}

/// Sum of all divisors: 1 and `n` are taken up front, the rest by pairing
/// below the square root.
pub fn sum_of_divisors(n: u64) -> (r: u64)
    requires
        arith::sigma(n as nat) <= u64::MAX,
    ensures
        r == arith::sigma(n as nat),
{
    if n == 0 {
        return 0;
    }
    if n == 1 {
        proof {
            assert(arith::sum_divisors_upto(1nat, 0nat) == 0);
        }
        return 1;
    }
    proof {
        assert(arith::pair_sum(n as nat, 0) == 0);
        assert(arith::pair_sum(n as nat, 1) == 1 + n);
        arith::lemma_pair_sum_le_sigma(n as nat, 1);
    }
    let mut sum: u64 = 1 + n;
    let mut i: u64 = 2;
    while i <= n / i
        invariant
            2 <= i,
            2 <= n,
            (i - 1) * (i - 1) <= n,
            sum == arith::pair_sum(n as nat, (i - 1) as nat),
            arith::sigma(n as nat) <= u64::MAX,
        decreases n - i + 1,
    {
        proof {
            vstd::arithmetic::div_mod::lemma_fundamental_div_mod(n as int, i as int);
            assert(i * i <= n && i < u64::MAX) by (nonlinear_arith)
                requires
                    1 <= i,
                    i <= n / i,
                    n == i * (n / i) + n % i,
                    n % i < i,
                    n <= u64::MAX,
            {
            }
            arith::lemma_pair_sum_le_sigma(n as nat, i as nat);
            if n % i == 0 {
                assert((i != n / i) <==> (i * i < n)) by (nonlinear_arith)
                    requires
                        1 <= i,
                        n == i * (n / i) + n % i,
                        n % i == 0,
                        i * i <= n,
                {
                }
            }
        }
        if n % i == 0 {
            sum = sum + i;
            let paired = n / i;
            if paired != i {
                sum = sum + paired;
            }
        }
        i = i + 1;
    }
    proof {
        vstd::arithmetic::div_mod::lemma_fundamental_div_mod(n as int, i as int);
        assert(n < i * i) by (nonlinear_arith)
            requires
                1 <= i,
                i > n / i,
                n == i * (n / i) + n % i,
                n % i < i,
        {
        }
        arith::lemma_pair_sum_sigma(n as nat, (i - 1) as nat);
    }
    sum
}

/// Number of primes below `n`, by the sieve of Eratosthenes.
pub fn count_primes(n: u64) -> (r: u64)
    requires
        n <= usize::MAX,
    ensures
        r == arith::prime_count(n as nat),
{
    arith::prime_sieve_count(n)
}

/// The `n`th Fibonacci number for indices whose value fits a 64-bit word;
/// beyond index 92 the function reports the all-ones value as an overflow
/// signal, as this candidate always has.
pub fn fibonacci(n: u64) -> (r: u64)
    ensures
        n <= 92 ==> r == arith::fib(n as nat),
        n > 92 ==> r == u64::MAX,
{
    if n <= 1 {
        return n;
    }
    if n > 92 {
        return u64::MAX;
    }
    let mut a: u64 = 0;
    let mut b: u64 = 1;
    let mut k: u64 = 2;
    while k <= n
        invariant
            2 <= k <= n + 1,
            n <= 92,
            a == arith::fib((k - 2) as nat),
            b == arith::fib((k - 1) as nat),
        decreases n - k + 1,
    {
        proof {
            arith::lemma_fib_mono(k as nat, 93);
            arith::lemma_fib_93();
        }
        let c = a + b;
        a = b;
        b = c;
        k = k + 1;
    }
    b
}

/// Number of divisors of `n`, pairing divisors below the square root.
fn optimized_count_divisors(n: u64) -> (r: u64)
    ensures
        r == arith::divisor_count(n as nat),
{
    if n == 0 {
        return 0;
    }
    if n == 1 {
        proof {
            assert(arith::count_divisors_upto(1nat, 0nat) == 0);
        }
        return 1;
    }
    let mut divisors: u64 = 0;
    let mut i: u64 = 1;
    while i <= n / i
        invariant
            1 <= i,
            1 <= n,
            (i - 1) * (i - 1) <= n,
            divisors == arith::pair_count(n as nat, (i - 1) as nat),
            n <= u64::MAX,
        decreases n - i + 1,
    {
        proof {
            vstd::arithmetic::div_mod::lemma_fundamental_div_mod(n as int, i as int);
            assert(i * i <= n && i < u64::MAX) by (nonlinear_arith)
                requires
                    1 <= i,
                    i <= n / i,
                    n == i * (n / i) + n % i,
                    n % i < i,
                    n <= u64::MAX,
            {
            }
            arith::lemma_pair_count_le(n as nat, i as nat);
            arith::lemma_count_divisors_le(n as nat, n as nat);
            if n % i == 0 {
                assert((i != n / i) <==> (i * i < n)) by (nonlinear_arith)
                    requires
                        1 <= i,
                        n == i * (n / i) + n % i,
                        n % i == 0,
                        i * i <= n,
                {
                }
            }
        }
        if n % i == 0 {
            divisors = divisors + 1;
            if i != n / i {
                divisors = divisors + 1;
            }
        }
        i = i + 1;
    }
    proof {
        vstd::arithmetic::div_mod::lemma_fundamental_div_mod(n as int, i as int);
        assert(n < i * i) by (nonlinear_arith)
            requires
                1 <= i,
                i > n / i,
                n == i * (n / i) + n % i,
                n % i < i,
        {
        }
        arith::lemma_pair_count_full(n as nat, (i - 1) as nat);
    }
    divisors
}

/// The first number beyond `n` with more divisors than `n`; the search stops
/// at the end of the 64-bit range if it finds none.
pub fn highly_composite(n: u64) -> (r: u64)
    requires
        n < u64::MAX,
    ensures
        n < r,
        forall|m: u64| n < m < r ==> arith::divisor_count(m as nat) <= arith::divisor_count(
            n as nat,
        ),
        arith::divisor_count(r as nat) > arith::divisor_count(n as nat) || r == u64::MAX,
        r == arith::hc_search(n, (n + 1) as u64),
{
    let div_count_n = optimized_count_divisors(n);
    let mut candidate: u64 = n + 1;
    loop
        invariant
            n < candidate,
            arith::hc_search(n, (n + 1) as u64) == arith::hc_search(n, candidate),
            div_count_n == arith::divisor_count(n as nat),
            forall|m: u64| n < m < candidate ==> arith::divisor_count(m as nat)
                <= arith::divisor_count(n as nat),
        decreases u64::MAX - candidate,
    {
        let div_count = optimized_count_divisors(candidate);
        if div_count > div_count_n {
            return candidate;
        }
        if candidate == u64::MAX {
            return candidate;
        }
        candidate = candidate + 1;
    }
}

/// Sum of the proper divisors of `n`: 1 is taken up front, the rest by
/// pairing below the square root, and `n` itself is never added.
pub fn sum_of_proper_divisors(n: u64) -> (r: u64)
    requires
        arith::sigma(n as nat) <= u64::MAX,
    ensures
        r == arith::sigma_proper(n as nat),
{
    if n <= 1 {
        return 0;
    }
    proof {
        assert(arith::pair_sum(n as nat, 0) == 0);
        assert(arith::pair_sum(n as nat, 1) == 1 + n);
        arith::lemma_sigma_proper(n as nat);
    }
    let mut sum: u64 = 1;
    let mut i: u64 = 2;
    while i <= n / i
        invariant
            2 <= i,
            2 <= n,
            (i - 1) * (i - 1) <= n,
            sum + n == arith::pair_sum(n as nat, (i - 1) as nat),
            arith::sigma(n as nat) <= u64::MAX,
            arith::sigma(n as nat) == arith::sigma_proper(n as nat) + n,
        decreases n - i + 1,
    {
        proof {
            vstd::arithmetic::div_mod::lemma_fundamental_div_mod(n as int, i as int);
            assert(i * i <= n && i < u64::MAX) by (nonlinear_arith)
                requires
                    1 <= i,
                    i <= n / i,
                    n == i * (n / i) + n % i,
                    n % i < i,
                    n <= u64::MAX,
            {
            }
            arith::lemma_pair_sum_le_sigma(n as nat, i as nat);
            if n % i == 0 {
                assert((i != n / i) <==> (i * i < n)) by (nonlinear_arith)
                    requires
                        1 <= i,
                        n == i * (n / i) + n % i,
                        n % i == 0,
                        i * i <= n,
                {
                }
            }
        }
        if n % i == 0 {
            sum = sum + i;
            let paired = n / i;
            if paired != i {
                sum = sum + paired;
            }
        }
        i = i + 1;
    }
    proof {
        vstd::arithmetic::div_mod::lemma_fundamental_div_mod(n as int, i as int);
        assert(n < i * i) by (nonlinear_arith)
            requires
                1 <= i,
                i > n / i,
                n == i * (n / i) + n % i,
                n % i < i,
        {
        }
        arith::lemma_pair_sum_sigma(n as nat, (i - 1) as nat);
    }
    sum
}


/// This engine's registry record for the edit-distance family.
pub fn get_candidates() -> (r: CandidateInfo)
    ensures
        r.wf(),
        r.engine_name@ == "Sonnet 3.7"@,
        r.function_names@.len() == 1,
        r.function_names@[0]@ == "levenshstein distance"@,
        r.dates@ == seq![Date { year: 2025, month: 3, day: 3 }],
        r.status@ == seq![AICodeGenStatus::FirstTryOk],
        r.functions@ == seq![StrFunction::Claude],
{
    CandidateInfo::new(
        "Sonnet 3.7".to_owned(),
        vec![
            "levenshstein distance".to_owned(),
        ],
        vec![
            Date { year: 2025, month: 3, day: 3 },
        ],
        vec![
            AICodeGenStatus::FirstTryOk,
        ],
        vec![
            StrFunction::Claude,
        ],
    )
}

/// This engine's registry record for the numeric families.
pub fn get_candidates2() -> (r: CandidateInfo2)
    ensures
        r.wf(),
        r.engine_name@ == "Sonnet 3.7"@,
        r.function_names@.len() == 5,
        r.function_names@[0]@ == "sum of divisors"@,
        r.function_names@[1]@ == "count of primes"@,
        r.function_names@[2]@ == "fibonacci"@,
        r.function_names@[3]@ == "highly composite"@,
        r.function_names@[4]@ == "sum of proper divisors"@,
        r.dates@ == seq![Date { year: 2025, month: 3, day: 3 }, Date { year: 2025, month: 3, day: 3 }, Date { year: 2025, month: 3, day: 3 }, Date { year: 2025, month: 3, day: 3 }, Date { year: 2025, month: 3, day: 3 }],
        r.status@ == seq![AICodeGenStatus::FirstTryOk, AICodeGenStatus::FirstTryOk, AICodeGenStatus::SecondTryOk, AICodeGenStatus::FirstTryOk, AICodeGenStatus::FirstTryOk],
        r.functions@ == seq![NumFunction::ClaudeSumOfDivisors, NumFunction::ClaudeCountPrimes, NumFunction::ClaudeFibonacci, NumFunction::ClaudeHighlyComposite, NumFunction::ClaudeSumOfProperDivisors],
{
    CandidateInfo2::new(
        "Sonnet 3.7".to_owned(),
        vec![
            "sum of divisors".to_owned(),
            "count of primes".to_owned(),
            "fibonacci".to_owned(),
            "highly composite".to_owned(),
            "sum of proper divisors".to_owned(),
        ],
        vec![
            Date { year: 2025, month: 3, day: 3 },
            Date { year: 2025, month: 3, day: 3 },
            Date { year: 2025, month: 3, day: 3 },
            Date { year: 2025, month: 3, day: 3 },
            Date { year: 2025, month: 3, day: 3 },
        ],
        vec![
            AICodeGenStatus::FirstTryOk,
            AICodeGenStatus::FirstTryOk,
            AICodeGenStatus::SecondTryOk,
            AICodeGenStatus::FirstTryOk,
            AICodeGenStatus::FirstTryOk,
        ],
        vec![
            NumFunction::ClaudeSumOfDivisors,
            NumFunction::ClaudeCountPrimes,
            NumFunction::ClaudeFibonacci,
            NumFunction::ClaudeHighlyComposite,
            NumFunction::ClaudeSumOfProperDivisors,
        ],
    )
}

} // verus!
