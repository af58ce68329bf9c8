//! The candidate data model: generation statuses, submission dates, and the
//! records that tie an engine's named variants to their callable
//! implementations.

use vstd::prelude::*;

verus! {

/// Outcome of the offline generation process that produced a candidate
/// variant.  Only `FirstTryOk` and `SecondTryOk` mark a variant as eligible for a
/// fair timing comparison; the other statuses disqualify it from ranking,
/// though it is still listed in reports.
#[derive(Copy, Clone, Debug, PartialEq, Eq, Structural)]
pub enum AICodeGenStatus {
    FirstTryOk,
    CompileError,
    SecondTryOk,
    SecondTryCompileError,
    IncorrectResult,
    AIRefusedToAnswer,
}

/// The display name of each status, as a sequence of characters.
pub open spec fn status_label_spec(s: AICodeGenStatus) -> Seq<char> {
    match s {
        AICodeGenStatus::FirstTryOk => "Ok"@,
        AICodeGenStatus::CompileError => "CompileError"@,
        AICodeGenStatus::SecondTryOk => "SecondTryOk"@,
        AICodeGenStatus::SecondTryCompileError => "SecondTryCompileError"@,
        AICodeGenStatus::IncorrectResult => "IncorrectResult"@,
        AICodeGenStatus::AIRefusedToAnswer => "AIRefusedToAnswer"@,
    }
}

/// True for the statuses that qualify a variant for ranked comparison.
pub open spec fn is_eligible_status(s: AICodeGenStatus) -> bool {
    s == AICodeGenStatus::FirstTryOk || s == AICodeGenStatus::SecondTryOk
}

impl AICodeGenStatus {
    /// The display name of the status.
    pub fn label(&self) -> (r: &'static str)
        ensures
            r@ == status_label_spec(*self),
    {
        match self {
            AICodeGenStatus::FirstTryOk => "Ok",
            AICodeGenStatus::CompileError => "CompileError",
            AICodeGenStatus::SecondTryOk => "SecondTryOk",
            AICodeGenStatus::SecondTryCompileError => "SecondTryCompileError",
            AICodeGenStatus::IncorrectResult => "IncorrectResult",
            AICodeGenStatus::AIRefusedToAnswer => "AIRefusedToAnswer",
        }
    }

    /// Whether the status qualifies the variant for ranked comparison.
    pub fn is_eligible(&self) -> (r: bool)
        ensures
            r == is_eligible_status(*self),
    {
        match self {
            AICodeGenStatus::FirstTryOk => true,
            AICodeGenStatus::SecondTryOk => true,
            _ => false,
        }
    }
}


/// Whether a year is a leap year in the proleptic Gregorian calendar.
pub open spec fn is_leap_year(y: int) -> bool {
    (y % 4 == 0 && y % 100 != 0) || y % 400 == 0
}

/// The number of days in the given month of the given year.
pub open spec fn days_in_month(y: int, m: int) -> int {
    if m == 2 {
        if is_leap_year(y) {
            29
        } else {
            28
        }
    } else if m == 4 || m == 6 || m == 9 || m == 11 {
        30
    } else {
        31
    }
}

/// Whether the three fields name a real calendar day.
pub open spec fn valid_ymd(y: int, m: int, d: int) -> bool {
    1 <= m <= 12 && 1 <= d <= days_in_month(y, m)
}

/// A calendar date, held as plain year, month and day fields.
#[derive(Copy, Clone, Debug, PartialEq, Eq, Structural)]
pub struct Date {
    pub year: u32,
    pub month: u32,
    pub day: u32,
}

impl Date {
    /// The fields name a real calendar day.
    pub open spec fn wf(self) -> bool {
        valid_ymd(self.year as int, self.month as int, self.day as int)
    }

    /// The date with the given calendar fields, or nothing when they do not
    /// name a real day.
    pub fn from_ymd_opt(year: u32, month: u32, day: u32) -> (r: Option<Date>)
        ensures
            r is Some <==> valid_ymd(year as int, month as int, day as int),
            r is Some ==> r->Some_0 == (Date { year, month, day }) && r->Some_0.wf(),
    {
        let leap = (year % 4 == 0 && year % 100 != 0) || year % 400 == 0;
        let dim: u32 = if month == 2 {
            if leap {
                29
            } else {
                28
            }
        } else if month == 4 || month == 6 || month == 9 || month == 11 {
            30
        } else {
            31
        };
        if 1 <= month && month <= 12 && 1 <= day && day <= dim {
            Some(Date { year, month, day })
        } else {
            None
        }
    }
}


/// One registered edit-distance callable: a handle naming the engine's
/// implementation, dispatched through [`StrFunction::call`].
#[derive(Copy, Clone, Debug, PartialEq, Eq, Structural)]
pub enum StrFunction {
    Baseline,
    BaselineEarly,
    Snapshot1,
    Snapshot2,
    Snapshot3,
    Snapshot4,
    CopilotV1,
    CopilotV2,
    CopilotV3,
    Claude,
    Gemini,
    OpenaiV1,
    OpenaiV2,
    Synthaai,
    Grok,
    Watson,
    Deepseek,
}

impl StrFunction {
    /// The inputs the callable accepts: the benchmark feeds plain ASCII text
    /// whose combined length the machine can index.
    pub open spec fn callable(self, s: &str, t: &str) -> bool {
        s.is_ascii() && t.is_ascii() && s@.len() + t@.len() < usize::MAX
    }

    /// The value the callable computes from the two inputs: the edit
    /// distance, except for the refused placeholder, which reports 0.
    pub open spec fn model(self, s: Seq<char>, t: Seq<char>) -> nat {
        match self {
            StrFunction::Watson => 0,
            _ => crate::distance::lev(s, t),
        }
    }

    /// Invoke the implementation this handle names.
    pub fn call(&self, s: &str, t: &str) -> (r: usize)
        requires
            self.callable(s, t),
        ensures
            r == self.model(s@, t@),
    {
        match self {
            StrFunction::Baseline => crate::module_baseline::levenshtein_distance(s, t),
            StrFunction::BaselineEarly => crate::baseline::levenshtein_distance(s, t),
            StrFunction::Snapshot1 => crate::module1::levenshtein_distance(s, t),
            StrFunction::Snapshot2 => crate::module2::levenshtein_distance(s, t),
            StrFunction::Snapshot3 => crate::module3::levenshtein_distance(s, t),
            StrFunction::Snapshot4 => crate::module4::levenshtein_distance(s, t),
            StrFunction::CopilotV1 => crate::module_copilot::levenshtein_distance(s, t),
            StrFunction::CopilotV2 => crate::module_copilot::levenshtein_distance2(s, t),
            StrFunction::CopilotV3 => crate::module_copilot::levenshtein_distance3(s, t),
            StrFunction::Claude => crate::module_claude::levenshtein_distance(s, t),
            StrFunction::Gemini => crate::module_gemini::levenshtein_distance(s, t),
            StrFunction::OpenaiV1 => crate::module_openai::levenshtein_distance(s, t),
            StrFunction::OpenaiV2 => crate::module_openai::levenshtein_distance2(s, t),
            StrFunction::Synthaai => crate::module_synthaai::levenshtein_distance(s, t),
            StrFunction::Grok => crate::module_grok::levenshtein_distance(s, t),
            StrFunction::Watson => crate::module_watson::levenshtein_distance(s, t),
            StrFunction::Deepseek => crate::module_deepseek::levenshtein_distance(s, t),
        }
    }
}

/// One registered single-argument numeric callable, dispatched through
/// [`NumFunction::call`].
#[derive(Copy, Clone, Debug, PartialEq, Eq, Structural)]
pub enum NumFunction {
    BaselineSumOfDivisors,
    BaselineCountPrimes,
    BaselineFibonacci,
    BaselineHighlyComposite,
    BaselineSumOfProperDivisors,
    ClaudeSumOfDivisors,
    ClaudeCountPrimes,
    ClaudeFibonacci,
    ClaudeHighlyComposite,
    ClaudeSumOfProperDivisors,
    CopilotSumOfDivisors,
    CopilotCountPrimes,
    CopilotFibonacci,
    CopilotHighlyComposite,
    CopilotSumOfProperDivisors,
    DeepseekSumOfDivisors,
    DeepseekCountPrimes,
    DeepseekFibonacci,
    DeepseekHighlyComposite,
    DeepseekSumOfProperDivisors,
    GeminiSumOfDivisors,
    OpenaiSumOfDivisors,
}

impl NumFunction {
    /// The inputs the callable accepts without overflowing a 64-bit word or
    /// running past the end of the representable range.
    pub open spec fn callable(self, n: u64) -> bool {
        match self {
            NumFunction::BaselineSumOfDivisors
            | NumFunction::ClaudeSumOfDivisors
            | NumFunction::CopilotSumOfDivisors
            | NumFunction::DeepseekSumOfDivisors
            | NumFunction::GeminiSumOfDivisors
            | NumFunction::OpenaiSumOfDivisors => crate::arith::sigma(n as nat) <= u64::MAX,
            NumFunction::BaselineSumOfProperDivisors => crate::arith::sigma_proper(n as nat)
                <= u64::MAX,
            NumFunction::ClaudeSumOfProperDivisors
            | NumFunction::CopilotSumOfProperDivisors
            | NumFunction::DeepseekSumOfProperDivisors => crate::arith::sigma(n as nat)
                <= u64::MAX,
            NumFunction::BaselineFibonacci | NumFunction::CopilotFibonacci => n <= 93,
            NumFunction::ClaudeFibonacci | NumFunction::DeepseekFibonacci => true,
            NumFunction::BaselineCountPrimes => true,
            NumFunction::ClaudeCountPrimes
            | NumFunction::CopilotCountPrimes
            | NumFunction::DeepseekCountPrimes => n <= usize::MAX,
            NumFunction::BaselineHighlyComposite
            | NumFunction::ClaudeHighlyComposite
            | NumFunction::CopilotHighlyComposite => n < u64::MAX,
            NumFunction::DeepseekHighlyComposite => true,
        }
    }

    /// The value the callable computes from its input.
    pub open spec fn model(self, n: u64) -> nat {
        match self {
            NumFunction::BaselineSumOfDivisors
            | NumFunction::ClaudeSumOfDivisors
            | NumFunction::CopilotSumOfDivisors
            | NumFunction::DeepseekSumOfDivisors
            | NumFunction::GeminiSumOfDivisors
            | NumFunction::OpenaiSumOfDivisors => crate::arith::sigma(n as nat),
            NumFunction::BaselineSumOfProperDivisors
            | NumFunction::ClaudeSumOfProperDivisors
            | NumFunction::CopilotSumOfProperDivisors
            | NumFunction::DeepseekSumOfProperDivisors => crate::arith::sigma_proper(n as nat),
            NumFunction::BaselineFibonacci | NumFunction::CopilotFibonacci => crate::arith::fib(
                n as nat,
            ),
            NumFunction::ClaudeFibonacci => if n <= 92 {
                crate::arith::fib(n as nat)
            } else {
                u64::MAX as nat
            },
            NumFunction::DeepseekFibonacci => crate::arith::fib_mod(n as nat),
            NumFunction::BaselineCountPrimes
            | NumFunction::ClaudeCountPrimes
            | NumFunction::CopilotCountPrimes
            | NumFunction::DeepseekCountPrimes => crate::arith::prime_count(n as nat),
            NumFunction::BaselineHighlyComposite
            | NumFunction::ClaudeHighlyComposite
            | NumFunction::CopilotHighlyComposite => crate::arith::hc_search(
                n,
                (n + 1) as u64,
            ) as nat,
            NumFunction::DeepseekHighlyComposite => 0,
        }
    }

    /// Invoke the implementation this handle names.
    pub fn call(&self, n: u64) -> (r: u64)
        requires
            self.callable(n),
        ensures
            r == self.model(n),
    {
        match self {
            NumFunction::BaselineSumOfDivisors => crate::module_baseline::sum_of_divisors(n),
            NumFunction::BaselineCountPrimes => crate::module_baseline::count_primes(n),
            NumFunction::BaselineFibonacci => crate::module_baseline::fibonacci(n),
            NumFunction::BaselineHighlyComposite => crate::module_baseline::highly_composite(n),
            NumFunction::BaselineSumOfProperDivisors => crate::module_baseline::sum_of_proper_divisors(n),
            NumFunction::ClaudeSumOfDivisors => crate::module_claude::sum_of_divisors(n),
            NumFunction::ClaudeCountPrimes => crate::module_claude::count_primes(n),
            NumFunction::ClaudeFibonacci => crate::module_claude::fibonacci(n),
            NumFunction::ClaudeHighlyComposite => crate::module_claude::highly_composite(n),
            NumFunction::ClaudeSumOfProperDivisors => crate::module_claude::sum_of_proper_divisors(n),
            NumFunction::CopilotSumOfDivisors => crate::module_copilot::sum_of_divisors(n),
            NumFunction::CopilotCountPrimes => crate::module_copilot::count_primes(n),
            NumFunction::CopilotFibonacci => crate::module_copilot::fibonacci(n),
            NumFunction::CopilotHighlyComposite => crate::module_copilot::highly_composite(n),
            NumFunction::CopilotSumOfProperDivisors => crate::module_copilot::sum_of_proper_divisors(n),
            NumFunction::DeepseekSumOfDivisors => crate::module_deepseek::sum_of_divisors(n),
            NumFunction::DeepseekCountPrimes => crate::module_deepseek::count_primes(n),
            NumFunction::DeepseekFibonacci => crate::module_deepseek::fibonacci(n),
            NumFunction::DeepseekHighlyComposite => crate::module_deepseek::highly_composite(n),
            NumFunction::DeepseekSumOfProperDivisors => crate::module_deepseek::sum_of_proper_divisors(n),
            NumFunction::GeminiSumOfDivisors => crate::module_gemini::sum_of_divisors(n),
            NumFunction::OpenaiSumOfDivisors => crate::module_openai::sum_of_divisors(n),
        }
    }

    /// Decide at run time whether the callable accepts `n`.
    pub fn callable_check(&self, n: u64) -> (r: bool)
        ensures
            r == self.callable(n),
    {
        match self {
            NumFunction::BaselineSumOfDivisors
            | NumFunction::ClaudeSumOfDivisors
            | NumFunction::CopilotSumOfDivisors
            | NumFunction::DeepseekSumOfDivisors
            | NumFunction::GeminiSumOfDivisors
            | NumFunction::OpenaiSumOfDivisors => crate::arith::sigma_fits(n),
            NumFunction::BaselineSumOfProperDivisors => crate::arith::sigma_proper_fits(n),
            NumFunction::ClaudeSumOfProperDivisors
            | NumFunction::CopilotSumOfProperDivisors
            | NumFunction::DeepseekSumOfProperDivisors => crate::arith::sigma_fits(n),
            NumFunction::BaselineFibonacci | NumFunction::CopilotFibonacci => n <= 93,
            NumFunction::ClaudeFibonacci | NumFunction::DeepseekFibonacci => true,
            NumFunction::BaselineCountPrimes => true,
            NumFunction::ClaudeCountPrimes
            | NumFunction::CopilotCountPrimes
            | NumFunction::DeepseekCountPrimes => n <= usize::MAX as u64,
            NumFunction::BaselineHighlyComposite
            | NumFunction::ClaudeHighlyComposite
            | NumFunction::CopilotHighlyComposite => n < u64::MAX,
            NumFunction::DeepseekHighlyComposite => true,
        }
    }
}

/// The registry record for one engine's edit-distance candidates: parallel
/// sequences of variant labels, submission dates, generation statuses and
/// callables, correlated by index.
#[derive(Debug)]
pub struct CandidateInfo {
    pub engine_name: String,
    pub function_names: Vec<String>,
    pub dates: Vec<Date>,
    pub status: Vec<AICodeGenStatus>,
    pub functions: Vec<StrFunction>,
}

impl CandidateInfo {
    /// The parallel sequences describe the same variants: their lengths agree.
    pub open spec fn wf(self) -> bool {
        self.function_names@.len() == self.functions@.len() && self.dates@.len()
            == self.functions@.len() && self.status@.len() == self.functions@.len()
    }

    /// Assemble a record.  The caller shows up front that the parallel
    /// sequences agree in length, so a mismatched record can never exist.
    pub fn new(
        engine_name: String,
        function_names: Vec<String>,
        dates: Vec<Date>,
        status: Vec<AICodeGenStatus>,
        functions: Vec<StrFunction>,
    ) -> (r: Self)
        requires
            function_names@.len() == functions@.len(),
            dates@.len() == functions@.len(),
            status@.len() == functions@.len(),
        ensures
            r == (CandidateInfo { engine_name, function_names, dates, status, functions }),
            r.wf(),
    {
        CandidateInfo { engine_name, function_names, dates, status, functions }
    }
}

/// The registry record for one engine's numeric candidates, laid out as in
/// [`CandidateInfo`].
#[derive(Debug)]
pub struct CandidateInfo2 {
    pub engine_name: String,
    pub function_names: Vec<String>,
    pub dates: Vec<Date>,
    pub status: Vec<AICodeGenStatus>,
    pub functions: Vec<NumFunction>,
}

impl CandidateInfo2 {
    /// The parallel sequences describe the same variants: their lengths agree.
    pub open spec fn wf(self) -> bool {
        self.function_names@.len() == self.functions@.len() && self.dates@.len()
            == self.functions@.len() && self.status@.len() == self.functions@.len()
    }

    /// Assemble a record, the parallel lengths shown equal up front.
    pub fn new(
        engine_name: String,
        function_names: Vec<String>,
        dates: Vec<Date>,
        status: Vec<AICodeGenStatus>,
        functions: Vec<NumFunction>,
    ) -> (r: Self)
        requires
            function_names@.len() == functions@.len(),
            dates@.len() == functions@.len(),
            status@.len() == functions@.len(),
        ensures
            r == (CandidateInfo2 { engine_name, function_names, dates, status, functions }),
            r.wf(),
    {
        CandidateInfo2 { engine_name, function_names, dates, status, functions }
    }
}

} // verus!
