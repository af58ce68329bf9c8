//! Candidate implementation attributed to the Watson engine.  The engine
//! declined to produce one, so the registered callable is a placeholder that
//! reports 0 and carries a refused status.

use vstd::prelude::*;
use crate::common::AICodeGenStatus;
use crate::common::CandidateInfo;
use crate::common::Date;
use crate::common::StrFunction;

verus! {

/// Placeholder for a refused request: always reports 0.
pub fn levenshtein_distance(_s: &str, _t: &str) -> (r: usize)
    ensures
        r == 0,
{
    0
}


/// This engine's registry record for the edit-distance family.
pub fn get_candidates() -> (r: CandidateInfo)
    ensures
        r.wf(),
        r.engine_name@ == "watson"@,
        r.function_names@.len() == 1,
        r.function_names@[0]@ == "levenshstein distance"@,
        r.dates@ == seq![Date { year: 2025, month: 1, day: 10 }],
        r.status@ == seq![AICodeGenStatus::AIRefusedToAnswer],
        r.functions@ == seq![StrFunction::Watson],
{
    CandidateInfo::new(
        "watson".to_owned(),
        vec![
            "levenshstein distance".to_owned(),
        ],
        vec![
            Date { year: 2025, month: 1, day: 10 },
        ],
        vec![
            AICodeGenStatus::AIRefusedToAnswer,
        ],
        vec![
            StrFunction::Watson,
        ],
    )
}

} // verus!
