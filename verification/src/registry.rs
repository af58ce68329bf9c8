//! The candidate registry: the fixed, ordered collection of candidate
//! records assembled at run start, with the baseline engine first.

use vstd::prelude::*;

use crate::common::CandidateInfo;
use crate::common::CandidateInfo2;
use crate::module_baseline;
use crate::module_claude;
use crate::module_copilot;
use crate::module_deepseek;
use crate::module_gemini;
use crate::module_grok;
use crate::module_openai;
use crate::module_synthaai;
use crate::module_watson;

verus! {

/// The registry for the string family: one record per engine, the baseline
/// first.  Construction is pure static data assembly with no error path, and
/// every record's parallel sequences are well formed.
pub fn build_registry() -> (r: Vec<CandidateInfo>)
    ensures
        r@.len() == 9,
        forall|i: int| 0 <= i < r@.len() ==> (#[trigger] r@[i]).wf(),
        r@[0].engine_name@ == "Baseline"@,
        r@[0].functions@.len() == 1,
{
    let registry = vec![
        module_baseline::get_candidates(),
        module_copilot::get_candidates(),
        module_claude::get_candidates(),
        module_gemini::get_candidates(),
        module_openai::get_candidates(),
        module_synthaai::get_candidates(),
        module_grok::get_candidates(),
        module_watson::get_candidates(),
        module_deepseek::get_candidates(),
    ];
    registry
}

/// The registry for the numeric families: one record per engine, the
/// baseline first, and the baseline's family labels pairwise distinct so
/// each family has exactly one anchoring measurement.
pub fn build_registry2() -> (r: Vec<CandidateInfo2>)
    ensures
        r@.len() == 6,
        forall|i: int| 0 <= i < r@.len() ==> (#[trigger] r@[i]).wf(),
        r@[0].engine_name@ == "Baseline"@,
        r@[0].functions@.len() == 5,
        forall|j1: int, j2: int|
            0 <= j1 < j2 < r@[0].function_names@.len() ==> (
            #[trigger] r@[0].function_names@[j1])@ != (#[trigger] r@[0].function_names@[j2])@,
{
    let registry = vec![
        module_baseline::get_candidates2(),
        module_copilot::get_candidates2(),
        module_deepseek::get_candidates2(),
        module_openai::get_candidates2(),
        module_claude::get_candidates2(),
        module_gemini::get_candidates2(),
    ];
    proof {
        reveal_strlit("sum of divisors");
        reveal_strlit("count of primes");
        reveal_strlit("fibonacci");
        reveal_strlit("highly composite");
        reveal_strlit("sum of proper divisors");
        assert("sum of divisors"@.len() == 15);
        assert("count of primes"@.len() == 15);
        assert("fibonacci"@.len() == 9);
        assert("highly composite"@.len() == 16);
        assert("sum of proper divisors"@.len() == 22);
        assert("sum of divisors"@[0] == 's' && "count of primes"@[0] == 'c');
        assert("sum of divisors"@ != "count of primes"@);
    }
    registry
}

} // verus!
