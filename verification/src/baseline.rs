//! An early snapshot of the reference edit-distance implementation, kept for
//! comparison with the current baseline.

use vstd::prelude::*;

use crate::distance;

verus! {

/// Edit distance by the full distance table.
pub fn levenshtein_distance(s: &str, t: &str) -> (r: usize)
    requires
        s.is_ascii(),
        t.is_ascii(),
        s@.len() + t@.len() < usize::MAX,
    ensures
        r == distance::lev(s@, t@),
{
    distance::lev_matrix(s, t)
}

} // verus!
