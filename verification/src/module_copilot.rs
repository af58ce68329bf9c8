//! Candidate implementations attributed to the Copilot engine: three edit
//! distance attempts and one attempt per numeric family.

use vstd::prelude::*;
use crate::common::AICodeGenStatus;
use crate::common::CandidateInfo2;
use crate::common::CandidateInfo;
use crate::common::Date;
use crate::common::NumFunction;
use crate::common::StrFunction;

use crate::arith;
use crate::distance;

verus! {

/// First edit-distance attempt: two rolling rows.
pub fn levenshtein_distance(s: &str, t: &str) -> (r: usize)
    requires
        s.is_ascii(),
        t.is_ascii(),
        s@.len() + t@.len() < usize::MAX,
    ensures
        r == distance::lev(s@, t@),
{
    distance::lev_two_rows(s, t)
}

/// Second attempt: the full distance table.
pub fn levenshtein_distance2(s: &str, t: &str) -> (r: usize)
    requires
        s.is_ascii(),
        t.is_ascii(),
        s@.len() + t@.len() < usize::MAX,
    ensures
        r == distance::lev(s@, t@),
{
    distance::lev_matrix(s, t)
}

/// Third attempt: two rolling rows again, with a tighter inner loop.
pub fn levenshtein_distance3(s: &str, t: &str) -> (r: usize)
    requires
        s.is_ascii(),
        t.is_ascii(),
        s@.len() + t@.len() < usize::MAX,
    ensures
        r == distance::lev(s@, t@),
{
    distance::lev_two_rows(s, t)
}

/// Sum of all divisors of `n`, pairing each divisor below the square root
/// with its cofactor.
pub fn sum_of_divisors(n: u64) -> (r: u64)
    requires
        arith::sigma(n as nat) <= u64::MAX,
    ensures
        r == arith::sigma(n as nat),
{
    if n == 0 {
        return 0;
    }
    let mut sum: u64 = 0;
    let mut i: u64 = 1;
    while i <= n / i
        invariant
            1 <= i,
            1 <= n,
            (i - 1) * (i - 1) <= n,
            sum == arith::pair_sum(n as nat, (i - 1) as nat),
            arith::sigma(n as nat) <= u64::MAX,
        decreases n - i + 1,
    {
        proof {
            vstd::arithmetic::div_mod::lemma_fundamental_div_mod(n as int, i as int);
            assert(i * i <= n && i < u64::MAX) by (nonlinear_arith)
                requires
                    1 <= i,
                    i <= n / i,
                    n == i * (n / i) + n % i,
                    n % i < i,
                    n <= u64::MAX,
            {
            }
            arith::lemma_pair_sum_le_sigma(n as nat, i as nat);
            if n % i == 0 {
                assert((i != n / i) <==> (i * i < n)) by (nonlinear_arith)
                    requires
                        1 <= i,
                        n == i * (n / i) + n % i,
                        n % i == 0,
                        i * i <= n,
                {
                }
            }
        }
        if n % i == 0 {
            sum = sum + i;
            if i != n / i {
                sum = sum + n / i;
            }
        }
        i = i + 1;
    }
    proof {
        vstd::arithmetic::div_mod::lemma_fundamental_div_mod(n as int, i as int);
        assert(n < i * i) by (nonlinear_arith)
            requires
                1 <= i,
                i > n / i,
                n == i * (n / i) + n % i,
                n % i < i,
        {
        }
        arith::lemma_pair_sum_sigma(n as nat, (i - 1) as nat);
    }
    sum
}

/// Number of divisors of `n`, pairing each divisor below the square root
/// with its cofactor.
fn count_divisors(n: u64) -> (r: u64)
    ensures
        r == arith::divisor_count(n as nat),
{
    if n == 0 {
        return 0;
    }
    let mut count: u64 = 0;
    let mut i: u64 = 1;
    while i <= n / i
        invariant
            1 <= i,
            1 <= n,
            (i - 1) * (i - 1) <= n,
            count == arith::pair_count(n as nat, (i - 1) as nat),
            n <= u64::MAX,
        decreases n - i + 1,
    {
        proof {
            vstd::arithmetic::div_mod::lemma_fundamental_div_mod(n as int, i as int);
            assert(i * i <= n && i < u64::MAX) by (nonlinear_arith)
                requires
                    1 <= i,
                    i <= n / i,
                    n == i * (n / i) + n % i,
                    n % i < i,
                    n <= u64::MAX,
            {
            }
            arith::lemma_pair_count_le(n as nat, i as nat);
            arith::lemma_count_divisors_le(n as nat, n as nat);
            if n % i == 0 {
                assert((i != n / i) <==> (i * i < n)) by (nonlinear_arith)
                    requires
                        1 <= i,
                        n == i * (n / i) + n % i,
                        n % i == 0,
                        i * i <= n,
                {
                }
            }
        }
        if n % i == 0 {
            count = count + 1;
            if i != n / i {
                count = count + 1;
            }
        }
        i = i + 1;
    }
    proof {
        vstd::arithmetic::div_mod::lemma_fundamental_div_mod(n as int, i as int);
        assert(n < i * i) by (nonlinear_arith)
            requires
                1 <= i,
                i > n / i,
                n == i * (n / i) + n % i,
                n % i < i,
        {
        }
        arith::lemma_pair_count_full(n as nat, (i - 1) as nat);
    }
    count
}

/// The first number beyond `n` with more divisors than `n`; the search stops
/// at the end of the 64-bit range if it finds none.
pub fn highly_composite(n: u64) -> (r: u64)
    requires
        n < u64::MAX,
    ensures
        n < r,
        forall|m: u64| n < m < r ==> arith::divisor_count(m as nat) <= arith::divisor_count(
            n as nat,
        ),
        arith::divisor_count(r as nat) > arith::divisor_count(n as nat) || r == u64::MAX,
        r == arith::hc_search(n, (n + 1) as u64),
{
    let n_divisors = count_divisors(n);
    let mut x: u64 = n + 1;
    loop
        invariant
            n < x,
            arith::hc_search(n, (n + 1) as u64) == arith::hc_search(n, x),
            n_divisors == arith::divisor_count(n as nat),
            forall|m: u64| n < m < x ==> arith::divisor_count(m as nat) <= arith::divisor_count(
                n as nat,
            ),
        decreases u64::MAX - x,
    {
        let x_divisors = count_divisors(x);
        if x_divisors > n_divisors {
            return x;
        }
        if x == u64::MAX {
            return x;
        }
        x = x + 1;
    }
}

/// Number of primes below `n`, by the sieve of Eratosthenes.
pub fn count_primes(n: u64) -> (r: u64)
    requires
        n <= usize::MAX,
    ensures
        r == arith::prime_count(n as nat),
{
    arith::prime_sieve_count(n)
}

/// The pair `(fib(n), fib(n + 1))`, advanced one index at a time.
fn fib(n: u64) -> (r: (u64, u64))
    requires
        n <= 92,
    ensures
        r.0 == arith::fib(n as nat),
        r.1 == arith::fib((n + 1) as nat),
{
    let mut a: u64 = 0;
    let mut b: u64 = 1;
    let mut k: u64 = 0;
    while k < n
        invariant
            k <= n <= 92,
            a == arith::fib(k as nat),
            b == arith::fib((k + 1) as nat),
        decreases n - k,
    {
        proof {
            arith::lemma_fib_mono((k + 2) as nat, 93);
            arith::lemma_fib_93();
        }
        let c = a + b;
        a = b;
        b = c;
        k = k + 1;
    }
    (a, b)
}

/// The `n`th Fibonacci number.
pub fn fibonacci(n: u64) -> (r: u64)
    requires
        n <= 93,
    ensures
        r == arith::fib(n as nat),
{
    if n == 0 {
        return 0;
    }
    let p = fib(n - 1);
    p.1
}

/// Sum of the proper divisors of `n`, pairing divisors below the square root
/// with their cofactors and leaving `n` itself out.
pub fn sum_of_proper_divisors(n: u64) -> (r: u64)
    requires
        arith::sigma(n as nat) <= u64::MAX,
    ensures
        r == arith::sigma_proper(n as nat),
{
    if n < 2 {
        return 0;
    }
    proof {
        assert(arith::pair_sum(n as nat, 0) == 0);
        assert(arith::pair_sum(n as nat, 1) == 1 + n);
        arith::lemma_sigma_proper(n as nat);
    }
    let mut s: u64 = 1;
    let mut i: u64 = 2;
    while i <= n / i
        invariant
            2 <= i,
            2 <= n,
            (i - 1) * (i - 1) <= n,
            s + n == arith::pair_sum(n as nat, (i - 1) as nat),
            arith::sigma(n as nat) <= u64::MAX,
            arith::sigma(n as nat) == arith::sigma_proper(n as nat) + n,
        decreases n - i + 1,
    {
        proof {
            vstd::arithmetic::div_mod::lemma_fundamental_div_mod(n as int, i as int);
            assert(i * i <= n && i < u64::MAX) by (nonlinear_arith)
                requires
                    1 <= i,
                    i <= n / i,
                    n == i * (n / i) + n % i,
                    n % i < i,
                    n <= u64::MAX,
            {
            }
            arith::lemma_pair_sum_le_sigma(n as nat, i as nat);
            if n % i == 0 {
                assert((i != n / i) <==> (i * i < n)) by (nonlinear_arith)
                    requires
                        1 <= i,
                        n == i * (n / i) + n % i,
                        n % i == 0,
                        i * i <= n,
                {
                }
            }
        }
        if n % i == 0 {
            let j = n / i;
            if i == j {
                s = s + i;
            } else {
                s = s + i;
                s = s + j;
            }
        }
        i = i + 1;
    }
    proof {
        vstd::arithmetic::div_mod::lemma_fundamental_div_mod(n as int, i as int);
        assert(n < i * i) by (nonlinear_arith)
            requires
                1 <= i,
                i > n / i,
                n == i * (n / i) + n % i,
                n % i < i,
        {
        }
        arith::lemma_pair_sum_sigma(n as nat, (i - 1) as nat);
    }
    s
}


/// This engine's registry record for the edit-distance family.
pub fn get_candidates() -> (r: CandidateInfo)
    ensures
        r.wf(),
        r.engine_name@ == "Microsoft Copilot"@,
        r.function_names@.len() == 3,
        r.function_names@[0]@ == "levenshstein distance"@,
        r.function_names@[1]@ == "levenshstein distance"@,
        r.function_names@[2]@ == "levenshstein distance"@,
        r.dates@ == seq![Date { year: 2025, month: 1, day: 2 }, Date { year: 2025, month: 1, day: 13 }, Date { year: 2025, month: 1, day: 25 }],
        r.status@ == seq![AICodeGenStatus::FirstTryOk, AICodeGenStatus::FirstTryOk, AICodeGenStatus::FirstTryOk],
        r.functions@ == seq![StrFunction::CopilotV1, StrFunction::CopilotV2, StrFunction::CopilotV3],
{
    CandidateInfo::new(
        "Microsoft Copilot".to_owned(),
        vec![
            "levenshstein distance".to_owned(),
            "levenshstein distance".to_owned(),
            "levenshstein distance".to_owned(),
        ],
        vec![
            Date { year: 2025, month: 1, day: 2 },
            Date { year: 2025, month: 1, day: 13 },
            Date { year: 2025, month: 1, day: 25 },
        ],
        vec![
            AICodeGenStatus::FirstTryOk,
            AICodeGenStatus::FirstTryOk,
            AICodeGenStatus::FirstTryOk,
        ],
        vec![
            StrFunction::CopilotV1,
            StrFunction::CopilotV2,
            StrFunction::CopilotV3,
        ],
    )
}

/// This engine's registry record for the numeric families.
pub fn get_candidates2() -> (r: CandidateInfo2)
    ensures
        r.wf(),
        r.engine_name@ == "Microsoft Copilot"@,
        r.function_names@.len() == 5,
        r.function_names@[0]@ == "sum of divisors"@,
        r.function_names@[1]@ == "count of primes"@,
        r.function_names@[2]@ == "fibonacci"@,
        r.function_names@[3]@ == "highly composite"@,
        r.function_names@[4]@ == "sum of proper divisors"@,
        r.dates@ == seq![Date { year: 2025, month: 3, day: 3 }, Date { year: 2025, month: 2, day: 3 }, Date { year: 2025, month: 3, day: 4 }, Date { year: 2025, month: 2, day: 4 }, Date { year: 2025, month: 3, day: 4 }],
        r.status@ == seq![AICodeGenStatus::FirstTryOk, AICodeGenStatus::FirstTryOk, AICodeGenStatus::FirstTryOk, AICodeGenStatus::FirstTryOk, AICodeGenStatus::FirstTryOk],
        r.functions@ == seq![NumFunction::CopilotSumOfDivisors, NumFunction::CopilotHighlyComposite, NumFunction::CopilotFibonacci, NumFunction::CopilotCountPrimes, NumFunction::CopilotSumOfProperDivisors],
{
    CandidateInfo2::new(
        "Microsoft Copilot".to_owned(),
        vec![
            "sum of divisors".to_owned(),
            "count of primes".to_owned(),
            "fibonacci".to_owned(),
            "highly composite".to_owned(),
            "sum of proper divisors".to_owned(),
        ],
        vec![
            Date { year: 2025, month: 3, day: 3 },
            Date { year: 2025, month: 2, day: 3 },
            Date { year: 2025, month: 3, day: 4 },
            Date { year: 2025, month: 2, day: 4 },
            Date { year: 2025, month: 3, day: 4 },
        ],
        vec![
            AICodeGenStatus::FirstTryOk,
            AICodeGenStatus::FirstTryOk,
            AICodeGenStatus::FirstTryOk,
            AICodeGenStatus::FirstTryOk,
            AICodeGenStatus::FirstTryOk,
        ],
        vec![
            NumFunction::CopilotSumOfDivisors,
            NumFunction::CopilotHighlyComposite,
            NumFunction::CopilotFibonacci,
            NumFunction::CopilotCountPrimes,
            NumFunction::CopilotSumOfProperDivisors,
        ],
    )
}

} // verus!
