//! The hand-written reference implementations: deliberately naive, they are
//! the baseline every other engine's candidates are compared against.

use vstd::prelude::*;
use crate::common::AICodeGenStatus;
use crate::common::CandidateInfo2;
use crate::common::CandidateInfo;
use crate::common::Date;
use crate::common::NumFunction;
use crate::common::StrFunction;

use crate::arith;
use crate::distance;

verus! {

/// Edit distance by the full-table dynamic program.
pub fn levenshtein_distance(s: &str, t: &str) -> (r: usize)
    requires
        s.is_ascii(),
        t.is_ascii(),
        s@.len() + t@.len() < usize::MAX,
    ensures
        r == distance::lev(s@, t@),
{
    distance::lev_matrix(s, t)
}

/// Sum of all divisors of `n`, found by trying every candidate up to `n`.
pub fn sum_of_divisors(n: u64) -> (r: u64)
    requires
        arith::sigma(n as nat) <= u64::MAX,
    ensures
        r == arith::sigma(n as nat),
{
    let mut sum: u64 = 0;
    let mut i: u64 = 0;
    while i < n
        invariant
            i <= n,
            sum == arith::sum_divisors_upto(n as nat, i as nat),
            arith::sigma(n as nat) <= u64::MAX,
        decreases n - i,
    {
        i = i + 1;
        proof {
            arith::lemma_sum_divisors_mono(n as nat, i as nat, n as nat);
        }
        if n % i == 0 {
            sum = sum + i;
        }
    }
    sum
}

/// Whether `num` is prime, by trial division up to its square root.
fn is_prime(num: u64) -> (r: bool)
    ensures
        r == arith::is_prime(num as nat),
{
    if num < 2 {
        return false;
    }
    let mut i: u64 = 2;
    while i <= num / i
        invariant
            2 <= i,
            2 <= num,
            forall|d: nat| 2 <= d < i ==> #[trigger] ((num as nat) % d) != 0,
        decreases num - i,
    {
        proof {
            vstd::arithmetic::div_mod::lemma_fundamental_div_mod(num as int, i as int);
            assert(i * i <= num && i + i <= num) by (nonlinear_arith)
                requires
                    2 <= i,
                    i <= num / i,
                    num == i * (num / i) + num % i,
                    num % i < i,
            {
            }
        }
        if num % i == 0 {
            proof {
                assert(((num as nat) % (i as nat)) == 0);
                assert(i < num);
            }
            return false;
        }
        i = i + 1;
    }
    proof {
        vstd::arithmetic::div_mod::lemma_fundamental_div_mod(num as int, i as int);
        assert(i * i > num) by (nonlinear_arith)
            requires
                1 <= i,
                i > num / i,
                num == i * (num / i) + num % i,
                num % i < i,
        {
        }
        assert forall|d: nat| 2 <= d < num implies #[trigger] ((num as nat) % d) != 0 by {
            if (num as nat) % d == 0 {
                arith::lemma_small_factor(num as nat, d);
                let e = choose|e: nat| 2 <= e && e * e <= num && #[trigger] ((num as nat) % e)
                    == 0;
                assert(e < i) by (nonlinear_arith)
                    requires
                        e * e <= num,
                        (i as nat) * (i as nat) > num,
                        0 <= e,
                        0 < i,
                {
                }
            }
        }
    }
    true
}

/// Number of primes below `n`, checking each candidate for primality.
pub fn count_primes(n: u64) -> (r: u64)
    ensures
        r == arith::prime_count(n as nat),
{
    if n <= 2 {
        return 0;
    }
    let mut count: u64 = 0;
    let mut x: u64 = 2;
    while x < n
        invariant
            2 <= x <= n,
            count == arith::prime_count(x as nat),
            count <= x,
        decreases n - x,
    {
        if is_prime(x) {
            count = count + 1;
        }
        x = x + 1;
    }
    count
}

/// The `n`th Fibonacci number, by the doubly recursive definition.
pub fn fibonacci(n: u64) -> (r: u64)
    requires
        n <= 93,
    ensures
        r == arith::fib(n as nat),
    decreases n,
{
    proof {
        arith::lemma_fib_mono(n as nat, 93);
        arith::lemma_fib_93();
    }
    match n {
        0 => 0,
        1 => 1,
        _ => fibonacci(n - 1) + fibonacci(n - 2),
    }
}

/// Number of divisors of `n`, found by trying every candidate up to `n`.
fn count_divisors(n: u64) -> (r: u64)
    ensures
        r == arith::divisor_count(n as nat),
{
    let mut count: u64 = 0;
    let mut i: u64 = 0;
    while i < n
        invariant
            i <= n,
            count == arith::count_divisors_upto(n as nat, i as nat),
            count <= i,
        decreases n - i,
    {
        i = i + 1;
        if n % i == 0 {
            count = count + 1;
        }
    }
    count
}

/// The first number beyond `n` with more divisors than `n`, searching
/// upward one candidate at a time.  Should the entire 64-bit range hold no
/// such number, the search stops at the largest representable value.
pub fn highly_composite(n: u64) -> (r: u64)
    requires
        n < u64::MAX,
    ensures
        n < r,
        forall|m: u64| n < m < r ==> arith::divisor_count(m as nat) <= arith::divisor_count(
            n as nat,
        ),
        arith::divisor_count(r as nat) > arith::divisor_count(n as nat) || r == u64::MAX,
        r == arith::hc_search(n, (n + 1) as u64),
{
    let target = count_divisors(n);
    let mut x: u64 = n + 1;
    loop
        invariant
            n < x,
            arith::hc_search(n, (n + 1) as u64) == arith::hc_search(n, x),
            target == arith::divisor_count(n as nat),
            forall|m: u64| n < m < x ==> arith::divisor_count(m as nat) <= arith::divisor_count(
                n as nat,
            ),
        decreases u64::MAX - x,
    {
        let dx = count_divisors(x);
        if dx > target {
            return x;
        }
        if x == u64::MAX {
            return x;
        }
        x = x + 1;
    }
}

/// Sum of the proper divisors of `n`: every divisor up to `n - 1` is tried.
pub fn sum_of_proper_divisors(n: u64) -> (r: u64)
    requires
        arith::sigma_proper(n as nat) <= u64::MAX,
    ensures
        r == arith::sigma_proper(n as nat),
{
    if n == 0 {
        return 0;
    }
    let mut sum: u64 = 0;
    let mut i: u64 = 0;
    while i + 1 < n
        invariant
            n >= 1,
            i <= n - 1,
            sum == arith::sum_divisors_upto(n as nat, i as nat),
            arith::sigma_proper(n as nat) <= u64::MAX,
        decreases n - i,
    {
        i = i + 1;
        proof {
            arith::lemma_sum_divisors_mono(n as nat, i as nat, (n - 1) as nat);
        }
        if n % i == 0 {
            sum = sum + i;
        }
    }
    sum
}


/// This engine's registry record for the edit-distance family.
pub fn get_candidates() -> (r: CandidateInfo)
    ensures
        r.wf(),
        r.engine_name@ == "Baseline"@,
        r.function_names@.len() == 1,
        r.function_names@[0]@ == "levenshstein distance"@,
        r.dates@ == seq![Date { year: 2025, month: 1, day: 2 }],
        r.status@ == seq![AICodeGenStatus::FirstTryOk],
        r.functions@ == seq![StrFunction::Baseline],
{
    CandidateInfo::new(
        "Baseline".to_owned(),
        vec![
            "levenshstein distance".to_owned(),
        ],
        vec![
            Date { year: 2025, month: 1, day: 2 },
        ],
        vec![
            AICodeGenStatus::FirstTryOk,
        ],
        vec![
            StrFunction::Baseline,
        ],
    )
}

/// This engine's registry record for the numeric families.
pub fn get_candidates2() -> (r: CandidateInfo2)
    ensures
        r.wf(),
        r.engine_name@ == "Baseline"@,
        r.function_names@.len() == 5,
        r.function_names@[0]@ == "sum of divisors"@,
        r.function_names@[1]@ == "count of primes"@,
        r.function_names@[2]@ == "fibonacci"@,
        r.function_names@[3]@ == "highly composite"@,
        r.function_names@[4]@ == "sum of proper divisors"@,
        r.dates@ == seq![Date { year: 2025, month: 2, day: 3 }, Date { year: 2025, month: 2, day: 3 }, Date { year: 2025, month: 2, day: 3 }, Date { year: 2025, month: 2, day: 3 }, Date { year: 2025, month: 2, day: 3 }],
        r.status@ == seq![AICodeGenStatus::FirstTryOk, AICodeGenStatus::FirstTryOk, AICodeGenStatus::FirstTryOk, AICodeGenStatus::FirstTryOk, AICodeGenStatus::FirstTryOk],
        r.functions@ == seq![NumFunction::BaselineSumOfDivisors, NumFunction::BaselineCountPrimes, NumFunction::BaselineFibonacci, NumFunction::BaselineHighlyComposite, NumFunction::BaselineSumOfProperDivisors],
{
    CandidateInfo2::new(
        "Baseline".to_owned(),
        vec![
            "sum of divisors".to_owned(),
            "count of primes".to_owned(),
            "fibonacci".to_owned(),
            "highly composite".to_owned(),
            "sum of proper divisors".to_owned(),
        ],
        vec![
            Date { year: 2025, month: 2, day: 3 },
            Date { year: 2025, month: 2, day: 3 },
            Date { year: 2025, month: 2, day: 3 },
            Date { year: 2025, month: 2, day: 3 },
            Date { year: 2025, month: 2, day: 3 },
        ],
        vec![
            AICodeGenStatus::FirstTryOk,
            AICodeGenStatus::FirstTryOk,
            AICodeGenStatus::FirstTryOk,
            AICodeGenStatus::FirstTryOk,
            AICodeGenStatus::FirstTryOk,
        ],
        vec![
            NumFunction::BaselineSumOfDivisors,
            NumFunction::BaselineCountPrimes,
            NumFunction::BaselineFibonacci,
            NumFunction::BaselineHighlyComposite,
            NumFunction::BaselineSumOfProperDivisors,
        ],
    )
}

} // verus!
