//! The aggregator and reporter: grouping measured results by function
//! family, separating disqualified entries from the ranked comparison,
//! ordering the valid ones by their metric, and rendering the numeric cells.

use vstd::prelude::*;
use vstd::multiset::Multiset;
use vstd::seq_lib::group_filter_ensures;
use vstd::seq_lib::group_to_multiset_ensures;
use vstd::string::StringExecFns;

use crate::common::AICodeGenStatus;
use crate::common::Date;
use crate::common::is_eligible_status;
use crate::numeral;

verus! {

broadcast use group_filter_ensures, group_to_multiset_ensures;

/// One measurement outcome: the engine and variant it belongs to, the
/// candidate's submission date and status, the computed value (kept for the
/// correctness cross-check), the metric as an invocation count over elapsed
/// nanoseconds, and the rendered speedup label.
pub struct BenchmarkResult {
    pub engine_name: String,
    pub function_name: String,
    pub date: Date,
    pub status: AICodeGenStatus,
    pub value: u64,
    pub runs: u64,
    pub elapsed_nanos: u64,
    pub speedup: String,
}

/// Whether a result takes part in the ranked comparison: an eligible status,
/// a nonzero computed value, and a real measurement.
pub open spec fn is_valid_result(r: BenchmarkResult) -> bool {
    is_eligible_status(r.status) && r.value != 0 && r.elapsed_nanos > 0
}


/// The predicate selecting valid rows.
pub open spec fn valid_pred() -> spec_fn(BenchmarkResult) -> bool {
    |x: BenchmarkResult| is_valid_result(x)
}

/// The predicate selecting disqualified rows.
pub open spec fn invalid_pred() -> spec_fn(BenchmarkResult) -> bool {
    |x: BenchmarkResult| !is_valid_result(x)
}

/// The two ranking styles a report can use.
#[derive(Copy, Clone, Debug, PartialEq, Eq, Structural)]
pub enum BenchmarkMode {
    Latency,
    Throughput,
}

/// The ranking order: in latency mode earlier rows took less elapsed time; in
/// throughput mode earlier rows completed more invocations per unit time,
/// compared by cross-multiplication so no division is involved.
pub open spec fn row_le(mode: BenchmarkMode, a: BenchmarkResult, b: BenchmarkResult) -> bool {
    match mode {
        BenchmarkMode::Latency => a.elapsed_nanos <= b.elapsed_nanos,
        BenchmarkMode::Throughput => a.runs * b.elapsed_nanos >= b.runs * a.elapsed_nanos,
    }
}

/// The ranking order is total.
pub proof fn lemma_row_le_total(mode: BenchmarkMode, a: BenchmarkResult, b: BenchmarkResult)
    ensures
        row_le(mode, a, b) || row_le(mode, b, a),
{
}

/// The ranking order is transitive over rows with a real measurement.
pub proof fn lemma_row_le_trans(
    mode: BenchmarkMode,
    a: BenchmarkResult,
    b: BenchmarkResult,
    c: BenchmarkResult,
)
    requires
        b.elapsed_nanos > 0,
        row_le(mode, a, b),
        row_le(mode, b, c),
    ensures
        row_le(mode, a, c),
{
    if mode is Throughput {
        if b.runs == 0 {
            assert(c.runs * b.elapsed_nanos == 0);
            assert(c.runs == 0) by (nonlinear_arith)
                requires
                    c.runs * b.elapsed_nanos == 0,
                    b.elapsed_nanos > 0,
            {
            }
            assert(c.runs * a.elapsed_nanos == 0) by (nonlinear_arith)
                requires
                    c.runs == 0,
            {
            }
        } else {
            assert(a.runs * c.elapsed_nanos >= c.runs * a.elapsed_nanos) by (nonlinear_arith)
                requires
                    a.runs * b.elapsed_nanos >= b.runs * a.elapsed_nanos,
                    b.runs * c.elapsed_nanos >= c.runs * b.elapsed_nanos,
                    b.elapsed_nanos > 0,
                    b.runs > 0,
            {
            }
        }
    }
}

/// Decide the ranking order at run time.
fn row_le_exec(mode: BenchmarkMode, a: &BenchmarkResult, b: &BenchmarkResult) -> (r: bool)
    ensures
        r == row_le(mode, *a, *b),
{
    match mode {
        BenchmarkMode::Latency => a.elapsed_nanos <= b.elapsed_nanos,
        BenchmarkMode::Throughput => {
            proof {
                assert(a.runs * b.elapsed_nanos <= u128::MAX && b.runs * a.elapsed_nanos
                    <= u128::MAX) by (nonlinear_arith)
                    requires
                        a.runs <= u64::MAX,
                        b.runs <= u64::MAX,
                        a.elapsed_nanos <= u64::MAX,
                        b.elapsed_nanos <= u64::MAX,
                {
                }
            }
            (a.runs as u128) * (b.elapsed_nanos as u128) >= (b.runs as u128) * (
            a.elapsed_nanos as u128)
        },
    }
}

/// Decide validity at run time.
fn is_valid_exec(r: &BenchmarkResult) -> (b: bool)
    ensures
        b == is_valid_result(*r),
{
    r.status.is_eligible() && r.value != 0 && r.elapsed_nanos > 0
}

/// Filtering distributes over appending one element.
proof fn lemma_filter_push(s: Seq<BenchmarkResult>, p: spec_fn(BenchmarkResult) -> bool, x: BenchmarkResult)
    ensures
        s.push(x).filter(p) == (if p(x) {
            s.filter(p).push(x)
        } else {
            s.filter(p)
        }),
{
    reveal(Seq::filter);
    assert(s.push(x).drop_last() =~= s);
}

/// A sequence none of whose elements satisfies the predicate filters to the
/// empty sequence.
proof fn lemma_filter_empty(s: Seq<BenchmarkResult>, p: spec_fn(BenchmarkResult) -> bool)
    requires
        forall|i: int| 0 <= i < s.len() ==> !p(#[trigger] s[i]),
    ensures
        s.filter(p) == Seq::<BenchmarkResult>::empty(),
    decreases s.len(),
{
    reveal(Seq::filter);
    if s.len() > 0 {
        lemma_filter_empty(s.drop_last(), p);
    }
}

/// The valid and the disqualified rows together hold exactly the sequence's
/// elements.
proof fn lemma_filter_partition(s: Seq<BenchmarkResult>)
    ensures
        s.filter(valid_pred()).to_multiset().add(s.filter(invalid_pred()).to_multiset())
            =~= s.to_multiset(),
    decreases s.len(),
{
    reveal(Seq::filter);
    if s.len() > 0 {
        lemma_filter_partition(s.drop_last());
        assert(s.drop_last().push(s.last()) =~= s);
        lemma_filter_push(s.drop_last(), valid_pred(), s.last());
        lemma_filter_push(s.drop_last(), invalid_pred(), s.last());
    }
}

/// Split the results into the disqualified and the valid ones, keeping the
/// input order inside each part.
pub fn split_results(results: Vec<BenchmarkResult>) -> (r: (
    Vec<BenchmarkResult>,
    Vec<BenchmarkResult>,
))
    ensures
        r.0@ == results@.filter(invalid_pred()),
        r.1@ == results@.filter(valid_pred()),
{
    let ghost orig = results@;
    let mut rest = results;
    let mut invalid: Vec<BenchmarkResult> = Vec::new();
    let mut valid: Vec<BenchmarkResult> = Vec::new();
    proof {
        assert(orig.take(0int).filter(invalid_pred()) =~= Seq::<BenchmarkResult>::empty());
        assert(orig.take(0int).filter(valid_pred()) =~= Seq::<BenchmarkResult>::empty());
    }
    while rest.len() > 0
        invariant
            rest@ == orig.skip(orig.len() - rest@.len()),
            rest@.len() <= orig.len(),
            invalid@ == orig.take(orig.len() - rest@.len()).filter(invalid_pred()),
            valid@ == orig.take(orig.len() - rest@.len()).filter(valid_pred()),
        decreases rest@.len(),
    {
        let ghost k = orig.len() - rest@.len();
        let x = rest.remove(0);
        proof {
            assert(x == orig[k]);
            assert(rest@ =~= orig.skip(k + 1));
            assert(orig.take(k + 1) =~= orig.take(k).push(orig[k]));
            lemma_filter_push(orig.take(k), invalid_pred(), orig[k]);
            lemma_filter_push(orig.take(k), valid_pred(), orig[k]);
        }
        if is_valid_exec(&x) {
            valid.push(x);
        } else {
            invalid.push(x);
        }
    }
    proof {
        assert(orig.take(orig.len() as int) =~= orig);
    }
    (invalid, valid)
}

/// Sort rows that all carry a real measurement, best metric first, by
/// repeatedly extracting the earliest best row.
pub fn sort_valid(rows: Vec<BenchmarkResult>, mode: BenchmarkMode) -> (r: Vec<BenchmarkResult>)
    requires
        forall|i: int| 0 <= i < rows@.len() ==> is_valid_result(#[trigger] rows@[i]),
    ensures
        r@.to_multiset() == rows@.to_multiset(),
        r@.len() == rows@.len(),
        forall|i: int| 0 <= i < r@.len() ==> is_valid_result(#[trigger] r@[i]),
        forall|i: int, j: int| 0 <= i <= j < r@.len() ==> row_le(mode, r@[i], r@[j]),
{
    let mut rest = rows;
    let mut out: Vec<BenchmarkResult> = Vec::new();
    while rest.len() > 0
        invariant
            out@.to_multiset().add(rest@.to_multiset()) =~= rows@.to_multiset(),
            out@.len() + rest@.len() == rows@.len(),
            forall|i: int| 0 <= i < rest@.len() ==> is_valid_result(#[trigger] rest@[i]),
            forall|i: int| 0 <= i < out@.len() ==> is_valid_result(#[trigger] out@[i]),
            forall|i: int, j: int| 0 <= i <= j < out@.len() ==> row_le(mode, out@[i], out@[j]),
            forall|i: int, j: int|
                0 <= i < out@.len() && 0 <= j < rest@.len() ==> row_le(mode, out@[i], rest@[j]),
        decreases rest@.len(),
    {
        let mut m: usize = 0;
        let mut k: usize = 1;
        while k < rest.len()
            invariant
                m < k <= rest@.len(),
                rest@.len() > 0,
                forall|i: int| 0 <= i < rest@.len() ==> is_valid_result(#[trigger] rest@[i]),
                forall|j: int| 0 <= j < k ==> row_le(mode, rest@[m as int], #[trigger] rest@[j]),
            decreases rest@.len() - k,
        {
            let better = !row_le_exec(mode, &rest[m], &rest[k]);
            if better {
                proof {
                    lemma_row_le_total(mode, rest@[m as int], rest@[k as int]);
                    assert forall|j: int| 0 <= j < k + 1 implies row_le(
                        mode,
                        rest@[k as int],
                        #[trigger] rest@[j],
                    ) by {
                        if j < k {
                            lemma_row_le_trans(mode, rest@[k as int], rest@[m as int], rest@[j]);
                        }
                    }
                }
                m = k;
            }
            k = k + 1;
        }
        let ghost rest_old = rest@;
        let ghost out_old = out@;
        let x = rest.remove(m);
        out.push(x);
        proof {
            assert(rest_old[m as int] == x);
            assert(rest_old.contains(x));
            assert(rest_old.to_multiset().count(x) > 0);
            assert(rest@.to_multiset() =~= rest_old.to_multiset().remove(x));
            assert(out@.to_multiset() =~= out_old.to_multiset().insert(x));
            assert(out@.to_multiset().add(rest@.to_multiset()) =~= out_old.to_multiset().add(
                rest_old.to_multiset(),
            ));
        }
    }
    proof {
        assert(rest@.to_multiset() =~= Multiset::<BenchmarkResult>::empty());
        assert(out@.to_multiset() =~= out@.to_multiset().add(rest@.to_multiset()));
    }
    out
}


/// Order one family's results for display: disqualified entries first as a
/// contiguous block, then the valid entries ranked by their metric.  Returns
/// the ordered rows and the index where the valid block starts.
pub fn order_family(rows: Vec<BenchmarkResult>, mode: BenchmarkMode) -> (r: (
    Vec<BenchmarkResult>,
    usize,
))
    ensures
        r.0@.to_multiset() == rows@.to_multiset(),
        r.0@.len() == rows@.len(),
        r.1 <= r.0@.len(),
        forall|i: int| 0 <= i < r.1 ==> !is_valid_result(#[trigger] r.0@[i]),
        forall|i: int| r.1 <= i < r.0@.len() ==> is_valid_result(#[trigger] r.0@[i]),
        forall|i: int, j: int| r.1 <= i <= j < r.0@.len() ==> row_le(mode, r.0@[i], r.0@[j]),
{
    let ghost orig = rows@;
    let (mut out, valid) = split_results(rows);
    let boundary = out.len();
    proof {
        lemma_filter_partition(orig);
    }
    let mut sorted = sort_valid(valid, mode);
    let ghost sorted_view = sorted@;
    let ghost out_before = out@;
    while sorted.len() > 0
        invariant
            out@ == out_before + sorted_view.take(sorted_view.len() - sorted@.len()),
            sorted@ == sorted_view.skip(sorted_view.len() - sorted@.len()),
            sorted@.len() <= sorted_view.len(),
        decreases sorted@.len(),
    {
        let ghost k = sorted_view.len() - sorted@.len();
        let x = sorted.remove(0);
        proof {
            assert(x == sorted_view[k]);
            assert(sorted@ =~= sorted_view.skip(k + 1));
            assert(sorted_view.take(k + 1) =~= sorted_view.take(k).push(sorted_view[k]));
        }
        out.push(x);
    }
    proof {
        assert(sorted_view.take(sorted_view.len() as int) =~= sorted_view);
        assert(out@ =~= out_before + sorted_view);
        vstd::seq_lib::lemma_multiset_commutative(out_before, sorted_view);
        assert(out@.to_multiset() =~= orig.to_multiset());
        assert(out@.len() == out@.to_multiset().len());
        assert(orig.len() == orig.to_multiset().len());
        assert forall|i: int| 0 <= i < boundary implies !is_valid_result(#[trigger] out@[i]) by {
            assert(out@[i] == out_before[i]);
        }
        assert forall|i: int| boundary <= i < out@.len() implies is_valid_result(
            #[trigger] out@[i],
        ) by {
            assert(out@[i] == sorted_view[i - boundary]);
        }
        assert forall|i: int, j: int|
            boundary <= i <= j < out@.len() implies row_le(mode, out@[i], out@[j]) by {
            assert(out@[i] == sorted_view[i - boundary]);
            assert(out@[j] == sorted_view[j - boundary]);
        }
    }
    (out, boundary)
}

/// One family's collected results, all sharing the same variant label.
pub struct FamilyResults {
    pub function_name: String,
    pub results: Vec<BenchmarkResult>,
}


/// Some group in the sequence carries this family label.
pub open spec fn has_group(groups: Seq<FamilyResults>, name: Seq<char>) -> bool {
    exists|g: int| 0 <= g < groups.len() && (#[trigger] groups[g]).function_name@ == name
}

/// Group the results by variant label, in order of first appearance; each
/// group holds exactly the input rows carrying its label, in input order.
pub fn group_results(results: Vec<BenchmarkResult>) -> (r: Vec<FamilyResults>)
    ensures
        forall|g: int, h: int|
            0 <= g < h < r@.len() ==> r@[g].function_name@ != r@[h].function_name@,
        forall|g: int|
            0 <= g < r@.len() ==> (#[trigger] r@[g]).results@ == results@.filter(
                group_pred(r@[g].function_name@),
            ),
        forall|i: int|
            0 <= i < results@.len() ==> #[trigger] has_group(r@, results@[i].function_name@),
{
    let ghost orig = results@;
    let mut rest = results;
    let mut groups: Vec<FamilyResults> = Vec::new();
    while rest.len() > 0
        invariant
            rest@ == orig.skip(orig.len() - rest@.len()),
            rest@.len() <= orig.len(),
            forall|g: int, h: int|
                0 <= g < h < groups@.len() ==> groups@[g].function_name@
                    != groups@[h].function_name@,
            forall|g: int|
                0 <= g < groups@.len() ==> (#[trigger] groups@[g]).results@ == orig.take(
                    orig.len() - rest@.len(),
                ).filter(group_pred(groups@[g].function_name@)),
            forall|i: int|
                0 <= i < orig.len() - rest@.len() ==> #[trigger] has_group(
                    groups@,
                    orig[i].function_name@,
                ),
        decreases rest@.len(),
    {
        let ghost k = orig.len() - rest@.len();
        let ghost groups_old = groups@;
        let x = rest.remove(0);
        proof {
            assert(x == orig[k]);
            assert(rest@ =~= orig.skip(k + 1));
            assert(orig.take(k + 1) =~= orig.take(k).push(orig[k]));
        }
        let mut gi: usize = 0;
        let mut found: bool = false;
        while gi < groups.len() && !found
            invariant
                gi <= groups@.len(),
                found ==> gi < groups@.len() && groups@[gi as int].function_name@
                    == x.function_name@,
                !found ==> forall|g: int|
                    0 <= g < gi ==> (#[trigger] groups@[g]).function_name@ != x.function_name@,
            decreases groups@.len() - gi + (if found {
                0int
            } else {
                1int
            }),
        {
            if groups[gi].function_name == x.function_name {
                found = true;
            } else {
                gi = gi + 1;
            }
        }
        if found {
            let mut g = groups.remove(gi);
            g.results.push(x);
            groups.insert(gi, g);
            proof {
                assert(groups@ =~= groups_old.update(gi as int, g));
                assert forall|i: int|
                    0 <= i < k + 1 implies #[trigger] has_group(
                    groups@,
                    orig[i].function_name@,
                ) by {
                    if i < k {
                        assert(has_group(groups_old, orig[i].function_name@));
                        let h = choose|h: int|
                            0 <= h < groups_old.len() && (#[trigger] groups_old[h]).function_name@
                                == orig[i].function_name@;
                        assert(groups@[h].function_name@ == orig[i].function_name@);
                    } else {
                        assert(groups@[gi as int].function_name@ == orig[k].function_name@);
                    }
                }
                assert forall|h: int|
                    0 <= h < groups@.len() implies (#[trigger] groups@[h]).results@ == orig.take(
                    k + 1,
                ).filter(group_pred(groups@[h].function_name@)) by {
                    lemma_filter_push(
                        orig.take(k),
                        group_pred(groups@[h].function_name@),
                        orig[k],
                    );
                    if h != gi {
                        assert(groups@[h] == groups_old[h]);
                        assert(groups@[gi as int].function_name@ == groups_old[gi as int].function_name@);
                        assert(groups_old[h].function_name@ != x.function_name@);
                    }
                }
            }
        } else {
            let name = x.function_name.clone();
            let mut rs: Vec<BenchmarkResult> = Vec::new();
            rs.push(x);
            groups.push(FamilyResults { function_name: name, results: rs });
            proof {
                assert forall|i: int|
                    0 <= i < k + 1 implies #[trigger] has_group(
                    groups@,
                    orig[i].function_name@,
                ) by {
                    if i < k {
                        assert(has_group(groups_old, orig[i].function_name@));
                        let h = choose|h: int|
                            0 <= h < groups_old.len() && (#[trigger] groups_old[h]).function_name@
                                == orig[i].function_name@;
                        assert(groups@[h].function_name@ == orig[i].function_name@);
                    } else {
                        assert(groups@[groups@.len() - 1].function_name@ == orig[k].function_name@);
                    }
                }
                assert forall|i: int|
                    0 <= i < k implies (#[trigger] orig[i]).function_name@ != x.function_name@ by {
                    assert(has_group(groups_old, orig[i].function_name@));
                    let g = choose|g: int|
                        0 <= g < groups_old.len() && (#[trigger] groups_old[g]).function_name@
                            == orig[i].function_name@;
                    assert(groups_old[g].function_name@ != x.function_name@);
                }
                assert forall|i: int|
                    0 <= i < orig.take(k).len() implies !group_pred(x.function_name@)(
                    #[trigger] orig.take(k)[i],
                ) by {
                    assert(orig.take(k)[i] == orig[i]);
                }
                lemma_filter_empty(orig.take(k), group_pred(x.function_name@));
                assert forall|h: int|
                    0 <= h < groups@.len() implies (#[trigger] groups@[h]).results@ == orig.take(
                    k + 1,
                ).filter(group_pred(groups@[h].function_name@)) by {
                    lemma_filter_push(
                        orig.take(k),
                        group_pred(groups@[h].function_name@),
                        orig[k],
                    );
                    if h < groups@.len() - 1 {
                        assert(groups@[h] == groups_old[h]);
                        assert(groups_old[h].function_name@ != x.function_name@);
                    } else {
                        assert(groups@[h].results@ =~= Seq::<BenchmarkResult>::empty().push(
                            orig[k],
                        ));
                    }
                }
            }
        }
    }
    proof {
        assert(orig.take(orig.len() as int) =~= orig);
    }
    groups
}

/// The predicate selecting one family's rows.
pub open spec fn group_pred(name: Seq<char>) -> spec_fn(BenchmarkResult) -> bool {
    |x: BenchmarkResult| x.function_name@ == name
}

/// One family's finished report: the family label, the ordered rows, and the
/// index where the ranked valid block starts.
pub struct FamilyReport {
    pub function_name: String,
    pub boundary: usize,
    pub rows: Vec<BenchmarkResult>,
}


/// Some family report carries this label.
pub open spec fn has_family(reports: Seq<FamilyReport>, name: Seq<char>) -> bool {
    exists|g: int| 0 <= g < reports.len() && (#[trigger] reports[g]).function_name@ == name
}

/// The full report: results grouped by family, each family's disqualified
/// entries separated out above its ranked valid entries.
pub fn sorted_results(results: Vec<BenchmarkResult>, mode: BenchmarkMode) -> (r: Vec<FamilyReport>)
    ensures
        forall|g: int, h: int|
            0 <= g < h < r@.len() ==> r@[g].function_name@ != r@[h].function_name@,
        forall|g: int|
            0 <= g < r@.len() ==> (#[trigger] r@[g]).rows@.to_multiset() == results@.filter(
                group_pred(r@[g].function_name@),
            ).to_multiset(),
        forall|i: int|
            0 <= i < results@.len() ==> #[trigger] has_family(r@, results@[i].function_name@),
        forall|g: int|
            0 <= g < r@.len() ==> (#[trigger] r@[g]).boundary <= r@[g].rows@.len(),
        forall|g: int, i: int|
            0 <= g < r@.len() && 0 <= i < r@[g].boundary ==> !is_valid_result(
                #[trigger] r@[g].rows@[i],
            ),
        forall|g: int, i: int|
            0 <= g < r@.len() && r@[g].boundary <= i < r@[g].rows@.len() ==> is_valid_result(
                #[trigger] r@[g].rows@[i],
            ),
        forall|g: int, i: int, j: int|
            0 <= g < r@.len() && r@[g].boundary <= i <= j < r@[g].rows@.len() ==> row_le(
                mode,
                #[trigger] r@[g].rows@[i],
                #[trigger] r@[g].rows@[j],
            ),
{
    let ghost orig = results@;
    let mut groups = group_results(results);
    let ghost groups_view = groups@;
    let mut reports: Vec<FamilyReport> = Vec::new();
    while groups.len() > 0
        invariant
            groups@ == groups_view.skip(groups_view.len() - groups@.len()),
            groups@.len() <= groups_view.len(),
            reports@.len() == groups_view.len() - groups@.len(),
            forall|g: int, h: int|
                0 <= g < h < groups_view.len() ==> groups_view[g].function_name@
                    != groups_view[h].function_name@,
            forall|g: int|
                0 <= g < groups_view.len() ==> (#[trigger] groups_view[g]).results@ == orig.filter(
                    group_pred(groups_view[g].function_name@),
                ),
            forall|g: int|
                0 <= g < reports@.len() ==> (#[trigger] reports@[g]).function_name@
                    == groups_view[g].function_name@,
            forall|g: int|
                0 <= g < reports@.len() ==> (#[trigger] reports@[g]).rows@.to_multiset()
                    == groups_view[g].results@.to_multiset(),
            forall|g: int|
                0 <= g < reports@.len() ==> (#[trigger] reports@[g]).boundary
                    <= reports@[g].rows@.len(),
            forall|g: int, i: int|
                0 <= g < reports@.len() && 0 <= i < reports@[g].boundary ==> !is_valid_result(
                    #[trigger] reports@[g].rows@[i],
                ),
            forall|g: int, i: int|
                0 <= g < reports@.len() && reports@[g].boundary <= i < reports@[g].rows@.len()
                    ==> is_valid_result(#[trigger] reports@[g].rows@[i]),
            forall|g: int, i: int, j: int|
                0 <= g < reports@.len() && reports@[g].boundary <= i <= j
                    < reports@[g].rows@.len() ==> row_le(
                    mode,
                    #[trigger] reports@[g].rows@[i],
                    #[trigger] reports@[g].rows@[j],
                ),
        decreases groups@.len(),
    {
        let ghost k = groups_view.len() - groups@.len();
        let g = groups.remove(0);
        proof {
            assert(g == groups_view[k]);
            assert(groups@ =~= groups_view.skip(k + 1));
        }
        let name = g.function_name;
        let (rows, boundary) = order_family(g.results, mode);
        reports.push(FamilyReport { function_name: name, boundary, rows });
    }
    proof {
        assert forall|i: int|
            0 <= i < orig.len() implies #[trigger] has_family(
            reports@,
            orig[i].function_name@,
        ) by {
            assert(has_group(groups_view, orig[i].function_name@));
            let g = choose|g: int|
                0 <= g < groups_view.len() && (#[trigger] groups_view[g]).function_name@
                    == orig[i].function_name@;
            assert(reports@[g].function_name@ == orig[i].function_name@);
        }
    }
    reports
}


/// The rate a measurement achieved, in invocations per second, rounded half
/// up to the nearest whole invocation; a measurement with no elapsed time has
/// no rate and reports 0.
pub open spec fn rate_of(runs: u64, elapsed_nanos: u64) -> nat {
    if elapsed_nanos == 0 {
        0
    } else {
        (((runs * 1_000_000_000) + elapsed_nanos / 2) / (elapsed_nanos as int)) as nat
    }
}

/// The speedup of a measurement over the baseline's, as a count of tenths:
/// the ratio of the two rates, rounded half up to one decimal place.  A
/// baseline without a rate resolves to 0 rather than to an unbounded ratio.
pub open spec fn speedup_tenths(
    base_runs: u64,
    base_nanos: u64,
    runs: u64,
    elapsed_nanos: u64,
) -> nat {
    let br = rate_of(base_runs, base_nanos);
    let cr = rate_of(runs, elapsed_nanos);
    if br == 0 {
        0
    } else {
        (10 * cr + br / 2) / br
    }
}

/// The rendered speedup: the tenths count with one decimal place and a
/// trailing multiplier mark.
pub open spec fn speedup_label_spec(
    base_runs: u64,
    base_nanos: u64,
    runs: u64,
    elapsed_nanos: u64,
) -> Seq<char> {
    numeral::tenths_label(speedup_tenths(base_runs, base_nanos, runs, elapsed_nanos)) + seq!['x']
}

/// Compute a measurement's rate at run time.
fn rate_exec(runs: u64, elapsed_nanos: u64) -> (r: u128)
    ensures
        r == rate_of(runs, elapsed_nanos),
{
    if elapsed_nanos == 0 {
        0
    } else {
        ((runs as u128) * 1_000_000_000 + (elapsed_nanos as u128) / 2) / (elapsed_nanos as u128)
    }
}

/// Render the speedup of a measurement relative to the baseline's.
pub fn speedup_label(base_runs: u64, base_nanos: u64, runs: u64, elapsed_nanos: u64) -> (r: String)
    ensures
        r@ == speedup_label_spec(base_runs, base_nanos, runs, elapsed_nanos),
{
    let br = rate_exec(base_runs, base_nanos);
    let cr = rate_exec(runs, elapsed_nanos);
    let tenths: u128 = if br == 0 {
        0
    } else {
        (10 * cr + br / 2) / br
    };
    let mut s = numeral::render_tenths(tenths);
    proof {
        reveal_strlit("x");
        assert("x"@ =~= seq!['x']);
    }
    s.append("x");
    s
}

/// The rendered rate column: invocations per second with two decimal places.
pub open spec fn rate_label_spec(runs: u64, elapsed_nanos: u64) -> Seq<char> {
    numeral::hundredths_label(
        if elapsed_nanos == 0 {
            0
        } else {
            (((runs * 100_000_000_000) + elapsed_nanos / 2) / (elapsed_nanos as int)) as nat
        },
    )
}

/// Render the rate column of a row.
pub fn rate_label(runs: u64, elapsed_nanos: u64) -> (r: String)
    ensures
        r@ == rate_label_spec(runs, elapsed_nanos),
{
    let hundredths: u128 = if elapsed_nanos == 0 {
        0
    } else {
        ((runs as u128) * 100_000_000_000 + (elapsed_nanos as u128) / 2) / (elapsed_nanos as u128)
    };
    numeral::render_hundredths(hundredths)
}

/// The rendered date column: year, month and day separated by dashes, the
/// month and day padded to two digits.
pub open spec fn date_label_spec(d: Date) -> Seq<char> {
    numeral::dec_digits(d.year as nat) + seq!['-'] + seq![
        numeral::digit_char((d.month / 10) as nat),
        numeral::digit_char((d.month % 10) as nat),
    ] + seq!['-'] + seq![
        numeral::digit_char((d.day / 10) as nat),
        numeral::digit_char((d.day % 10) as nat),
    ]
}

/// Render the date column of a row.
pub fn date_label(d: &Date) -> (r: String)
    requires
        d.wf(),
    ensures
        r@ == date_label_spec(*d),
{
    let mut s = numeral::u64_to_string(d.year as u64);
    proof {
        reveal_strlit("-");
        assert("-"@ =~= seq!['-']);
    }
    s.append("-");
    let m = numeral::render_two_digits(d.month);
    s.append(m.as_str());
    s.append("-");
    let day = numeral::render_two_digits(d.day);
    s.append(day.as_str());
    s
}

} // verus!
