//! Candidate implementations attributed to the Grok engine.

use vstd::prelude::*;
use crate::common::AICodeGenStatus;
use crate::common::CandidateInfo;
use crate::common::Date;
use crate::common::StrFunction;

use crate::distance;

verus! {

/// Edit distance by two rolling rows.
pub fn levenshtein_distance(s: &str, t: &str) -> (r: usize)
    requires
        s.is_ascii(),
        t.is_ascii(),
        s@.len() + t@.len() < usize::MAX,
    ensures
        r == distance::lev(s@, t@),
{
    distance::lev_two_rows(s, t)
}


/// This engine's registry record for the edit-distance family.
pub fn get_candidates() -> (r: CandidateInfo)
    ensures
        r.wf(),
        r.engine_name@ == "Grock 2"@,
        r.function_names@.len() == 1,
        r.function_names@[0]@ == "levenshstein distance"@,
        r.dates@ == seq![Date { year: 2025, month: 1, day: 8 }],
        r.status@ == seq![AICodeGenStatus::FirstTryOk],
        r.functions@ == seq![StrFunction::Grok],
{
    CandidateInfo::new(
        "Grock 2".to_owned(),
        vec![
            "levenshstein distance".to_owned(),
        ],
        vec![
            Date { year: 2025, month: 1, day: 8 },
        ],
        vec![
            AICodeGenStatus::FirstTryOk,
        ],
        vec![
            StrFunction::Grok,
        ],
    )
}

} // verus!
