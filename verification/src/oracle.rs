//! The correctness oracle: a sequential equivalence check that sweeps every
//! registered variant of a family over an input domain and reports the first
//! divergence from the baseline.  Correctness is decided here alone, never
//! inferred from timing behaviour.

use vstd::prelude::*;

use crate::common::NumFunction;
use crate::common::StrFunction;

verus! {

/// The first disagreement found between a candidate and the baseline: which
/// candidate diverged, on which input, and the two values.
pub struct Divergence {
    pub candidate: usize,
    pub input: u64,
    pub expected: u64,
    pub actual: u64,
}

/// Check every candidate variant of a numeric family against the baseline
/// over the inputs 0 through `max_input` inclusive.  Candidates are swept in
/// registry order, each over the whole domain in increasing order, and the
/// check stops at the first divergence; the result is nothing exactly when
/// every candidate agrees with the baseline on the whole domain.
pub fn check_family(
    baseline: &NumFunction,
    candidates: &Vec<NumFunction>,
    max_input: u64,
) -> (r: Option<Divergence>)
    requires
        max_input < u64::MAX,
        forall|x: u64| 0 <= x <= max_input ==> #[trigger] baseline.callable(x),
        forall|c: int, x: u64|
            0 <= c < candidates@.len() && 0 <= x <= max_input ==> #[trigger] candidates@[c].callable(
                x,
            ),
    ensures
        r is None <==> forall|c: int, x: u64|
            0 <= c < candidates@.len() && 0 <= x <= max_input ==> #[trigger] candidates@[c].model(x)
                == baseline.model(x),
        r is Some ==> (r->Some_0).candidate < candidates@.len() && (r->Some_0).input <= max_input
            && (r->Some_0).expected == baseline.model((r->Some_0).input) && (r->Some_0).actual
            == candidates@[(r->Some_0).candidate as int].model((r->Some_0).input) && (
        r->Some_0).expected != (r->Some_0).actual,
        r is Some ==> forall|c: int, x: u64|
            0 <= c < candidates@.len() && 0 <= x <= max_input && (c < (r->Some_0).candidate as int
                || (c == (r->Some_0).candidate as int && x < (r->Some_0).input))
                ==> #[trigger] candidates@[c].model(x) == baseline.model(x),
{
    let mut c: usize = 0;
    while c < candidates.len()
        invariant
            c <= candidates@.len(),
            max_input < u64::MAX,
            forall|x: u64| 0 <= x <= max_input ==> #[trigger] baseline.callable(x),
            forall|cc: int, x: u64|
                0 <= cc < candidates@.len() && 0 <= x <= max_input
                    ==> #[trigger] candidates@[cc].callable(x),
            forall|cc: int, x: u64|
                0 <= cc < c && 0 <= x <= max_input ==> #[trigger] candidates@[cc].model(x)
                    == baseline.model(x),
        decreases candidates@.len() - c,
    {
        let candidate = &candidates[c];
        let mut x: u64 = 0;
        while x <= max_input
            invariant
                c < candidates@.len(),
                x <= max_input + 1,
                max_input < u64::MAX,
                candidate == candidates@[c as int],
                forall|y: u64| 0 <= y <= max_input ==> #[trigger] baseline.callable(y),
                forall|cc: int, y: u64|
                    0 <= cc < candidates@.len() && 0 <= y <= max_input
                        ==> #[trigger] candidates@[cc].callable(y),
                forall|cc: int, y: u64|
                    0 <= cc < c && 0 <= y <= max_input ==> #[trigger] candidates@[cc].model(y)
                        == baseline.model(y),
                forall|y: u64|
                    0 <= y < x ==> #[trigger] candidates@[c as int].model(y) == baseline.model(y),
            decreases max_input - x + 1,
        {
            let expected = baseline.call(x);
            let actual = candidate.call(x);
            if expected != actual {
                return Some(Divergence { candidate: c, input: x, expected, actual });
            }
            x = x + 1;
        }
        c = c + 1;
    }
    None
}

/// Check every candidate variant of the string family against the baseline
/// over a fixed list of input pairs, reporting the first divergence in the
/// same sweep order as [`check_family`].
pub struct DivergenceStr {
    pub candidate: usize,
    pub pair: usize,
    pub expected: usize,
    pub actual: usize,
}

/// The preconditions the string callables put on one input pair.
pub open spec fn pair_ok(p: (String, String)) -> bool {
    vstd::utf8::is_ascii_chars(p.0@) && vstd::utf8::is_ascii_chars(p.1@) && p.0@.len()
        + p.1@.len() < usize::MAX
}

/// Sweep the string-family candidates over the given input pairs.
pub fn check_family_str(
    baseline: &StrFunction,
    candidates: &Vec<StrFunction>,
    pairs: &Vec<(String, String)>,
) -> (r: Option<DivergenceStr>)
    requires
        forall|p: int| 0 <= p < pairs@.len() ==> #[trigger] pair_ok(pairs@[p]),
    ensures
        r is None <==> forall|c: int, p: int|
            0 <= c < candidates@.len() && 0 <= p < pairs@.len() ==> #[trigger] candidates@[c].model(
                pairs@[p].0@,
                pairs@[p].1@,
            ) == baseline.model(pairs@[p].0@, pairs@[p].1@),
        r is Some ==> (r->Some_0).candidate < candidates@.len() && (r->Some_0).pair < pairs@.len()
            && (r->Some_0).expected == baseline.model(
            pairs@[(r->Some_0).pair as int].0@,
            pairs@[(r->Some_0).pair as int].1@,
        ) && (r->Some_0).actual == candidates@[(r->Some_0).candidate as int].model(
            pairs@[(r->Some_0).pair as int].0@,
            pairs@[(r->Some_0).pair as int].1@,
        ) && (r->Some_0).expected != (r->Some_0).actual,
{
    let mut c: usize = 0;
    while c < candidates.len()
        invariant
            c <= candidates@.len(),
            forall|p: int| 0 <= p < pairs@.len() ==> #[trigger] pair_ok(pairs@[p]),
            forall|cc: int, p: int|
                0 <= cc < c && 0 <= p < pairs@.len() ==> #[trigger] candidates@[cc].model(
                    pairs@[p].0@,
                    pairs@[p].1@,
                ) == baseline.model(pairs@[p].0@, pairs@[p].1@),
        decreases candidates@.len() - c,
    {
        let candidate = &candidates[c];
        let mut p: usize = 0;
        while p < pairs.len()
            invariant
                c < candidates@.len(),
                p <= pairs@.len(),
                candidate == candidates@[c as int],
                forall|q: int| 0 <= q < pairs@.len() ==> #[trigger] pair_ok(pairs@[q]),
                forall|cc: int, q: int|
                    0 <= cc < c && 0 <= q < pairs@.len() ==> #[trigger] candidates@[cc].model(
                        pairs@[q].0@,
                        pairs@[q].1@,
                    ) == baseline.model(pairs@[q].0@, pairs@[q].1@),
                forall|q: int|
                    0 <= q < p ==> #[trigger] candidates@[c as int].model(
                        pairs@[q].0@,
                        pairs@[q].1@,
                    ) == baseline.model(pairs@[q].0@, pairs@[q].1@),
            decreases pairs@.len() - p,
        {
            let input1 = pairs[p].0.as_str();
            let input2 = pairs[p].1.as_str();
            proof {
                assert(pair_ok(pairs@[p as int]));
                assert(input1@ == pairs@[p as int].0@);
                assert(input2@ == pairs@[p as int].1@);
                assert(vstd::utf8::is_ascii_chars(input1@));
                assert(input1.is_ascii());
            }
            let expected = baseline.call(input1, input2);
            let actual = candidate.call(input1, input2);
            if expected != actual {
                return Some(DivergenceStr { candidate: c, pair: p, expected, actual });
            }
            p = p + 1;
        }
        c = c + 1;
    }
    None
}

} // verus!
