//! An early snapshot of one engine's edit-distance candidate, kept with its
//! attribution alongside the consolidated per-engine modules.

use vstd::prelude::*;

use crate::common::AICodeGenStatus;
use crate::common::Date;
use crate::distance;

verus! {

/// The engine this candidate is attributed to, with its submission date and
/// generation status.
pub fn name() -> (r: (&'static str, Date, AICodeGenStatus))
    ensures
        r.0@ == "GPT-4-turbo"@,
        r.1 == (Date { year: 2025, month: 1, day: 2 }),
        r.1.wf(),
        r.2 == AICodeGenStatus::FirstTryOk,
{
    ("GPT-4-turbo", Date { year: 2025, month: 1, day: 2 }, AICodeGenStatus::FirstTryOk)
}

/// Edit distance by two rolling rows.
pub fn levenshtein_distance(s: &str, t: &str) -> (r: usize)
    requires
        s.is_ascii(),
        t.is_ascii(),
        s@.len() + t@.len() < usize::MAX,
    ensures
        r == distance::lev(s@, t@),
{
    distance::lev_two_rows(s, t)
}

} // verus!
