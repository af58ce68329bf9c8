//! An early snapshot of one engine's edit-distance candidate; only the
//! engine's display name was recorded for this one.

use vstd::prelude::*;

use crate::distance;

verus! {

/// The engine this candidate is attributed to.
pub fn name() -> (r: &'static str)
    ensures
        r@ == "syntha.ai 2 Jan 2025"@,
{
    "syntha.ai 2 Jan 2025"
}

/// Edit distance by the full distance table.
pub fn levenshtein_distance(s: &str, t: &str) -> (r: usize)
    requires
        s.is_ascii(),
        t.is_ascii(),
        s@.len() + t@.len() < usize::MAX,
    ensures
        r == distance::lev(s@, t@),
{
    distance::lev_matrix(s, t)
}

} // verus!
