//! Candidate implementations attributed to the OpenAI engine.

use vstd::prelude::*;
use crate::common::AICodeGenStatus;
use crate::common::CandidateInfo2;
use crate::common::CandidateInfo;
use crate::common::Date;
use crate::common::NumFunction;
use crate::common::StrFunction;

use crate::arith;
use crate::distance;

verus! {

/// First edit-distance attempt: two rolling rows.
pub fn levenshtein_distance(s: &str, t: &str) -> (r: usize)
    requires
        s.is_ascii(),
        t.is_ascii(),
        s@.len() + t@.len() < usize::MAX,
    ensures
        r == distance::lev(s@, t@),
{
    distance::lev_two_rows(s, t)
}

/// Second attempt: two rows again, copied rather than swapped.
pub fn levenshtein_distance2(s: &str, t: &str) -> (r: usize)
    requires
        s.is_ascii(),
        t.is_ascii(),
        s@.len() + t@.len() < usize::MAX,
    ensures
        r == distance::lev(s@, t@),
{
    distance::lev_two_rows(s, t)
}

/// Sum of all divisors of `n`, pairing each divisor below the square root
/// with its cofactor.
pub fn sum_of_divisors(n: u64) -> (r: u64)
    requires
        arith::sigma(n as nat) <= u64::MAX,
    ensures
        r == arith::sigma(n as nat),
{
    if n == 0 {
        return 0;
    }
    if n == 1 {
        proof {
            assert(arith::sum_divisors_upto(1nat, 0nat) == 0);
        }
        return 1;
    }
    let mut sum: u64 = 0;
    let mut i: u64 = 1;
    while i <= n / i
        invariant
            1 <= i,
            1 <= n,
            (i - 1) * (i - 1) <= n,
            sum == arith::pair_sum(n as nat, (i - 1) as nat),
            arith::sigma(n as nat) <= u64::MAX,
        decreases n - i + 1,
    {
        proof {
            vstd::arithmetic::div_mod::lemma_fundamental_div_mod(n as int, i as int);
            assert(i * i <= n && i < u64::MAX) by (nonlinear_arith)
                requires
                    1 <= i,
                    i <= n / i,
                    n == i * (n / i) + n % i,
                    n % i < i,
                    n <= u64::MAX,
            {
            }
            arith::lemma_pair_sum_le_sigma(n as nat, i as nat);
            if n % i == 0 {
                assert((i != n / i) <==> (i * i < n)) by (nonlinear_arith)
                    requires
                        1 <= i,
                        n == i * (n / i) + n % i,
                        n % i == 0,
                        i * i <= n,
                {
                }
            }
        }
        if n % i == 0 {
            let pair = n / i;
            if i == pair {
                sum = sum + i;
            } else {
                sum = sum + i;
                sum = sum + pair;
            }
        }
        i = i + 1;
    }
    proof {
        vstd::arithmetic::div_mod::lemma_fundamental_div_mod(n as int, i as int);
        assert(n < i * i) by (nonlinear_arith)
            requires
                1 <= i,
                i > n / i,
                n == i * (n / i) + n % i,
                n % i < i,
        {
        }
        arith::lemma_pair_sum_sigma(n as nat, (i - 1) as nat);
    }
    sum
}


/// This engine's registry record for the edit-distance family.
pub fn get_candidates() -> (r: CandidateInfo)
    ensures
        r.wf(),
        r.engine_name@ == "ChatGPT, version 2"@,
        r.function_names@.len() == 2,
        r.function_names@[0]@ == "levenshstein distance"@,
        r.function_names@[1]@ == "levenshstein distance"@,
        r.dates@ == seq![Date { year: 2025, month: 1, day: 2 }, Date { year: 2025, month: 1, day: 25 }],
        r.status@ == seq![AICodeGenStatus::FirstTryOk, AICodeGenStatus::FirstTryOk],
        r.functions@ == seq![StrFunction::OpenaiV1, StrFunction::OpenaiV2],
{
    CandidateInfo::new(
        "ChatGPT, version 2".to_owned(),
        vec![
            "levenshstein distance".to_owned(),
            "levenshstein distance".to_owned(),
        ],
        vec![
            Date { year: 2025, month: 1, day: 2 },
            Date { year: 2025, month: 1, day: 25 },
        ],
        vec![
            AICodeGenStatus::FirstTryOk,
            AICodeGenStatus::FirstTryOk,
        ],
        vec![
            StrFunction::OpenaiV1,
            StrFunction::OpenaiV2,
        ],
    )
}

/// This engine's registry record for the numeric families.
pub fn get_candidates2() -> (r: CandidateInfo2)
    ensures
        r.wf(),
        r.engine_name@ == "ChatGPT, version 2"@,
        r.function_names@.len() == 1,
        r.function_names@[0]@ == "sum of divisors"@,
        r.dates@ == seq![Date { year: 2025, month: 2, day: 3 }],
        r.status@ == seq![AICodeGenStatus::FirstTryOk],
        r.functions@ == seq![NumFunction::OpenaiSumOfDivisors],
{
    CandidateInfo2::new(
        "ChatGPT, version 2".to_owned(),
        vec![
            "sum of divisors".to_owned(),
        ],
        vec![
            Date { year: 2025, month: 2, day: 3 },
        ],
        vec![
            AICodeGenStatus::FirstTryOk,
        ],
        vec![
            NumFunction::OpenaiSumOfDivisors,
        ],
    )
}

} // verus!
