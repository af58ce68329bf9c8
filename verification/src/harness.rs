//! The measurement harness: runs every registered candidate through the
//! timing protocol and assembles the labelled benchmark rows, each row's
//! speedup computed against its own family's baseline measurement.

use vstd::prelude::*;

use crate::common::CandidateInfo;
use crate::common::CandidateInfo2;
use crate::report::BenchmarkResult;
use crate::report::speedup_label;
use crate::report::speedup_label_spec;
use crate::timing::Throughput;
use crate::timing::run_for_duration;
use crate::timing::run_for_duration2;

verus! {

/// The sentinel shown in place of a speedup on a baseline row.
pub fn baseline_sentinel() -> (r: String)
    ensures
        r@ == "-----"@,
{
    "-----".to_owned()
}

/// The sentinel shown where no speedup can be computed: a zero result, or a
/// family without a baseline measurement.
pub fn none_sentinel() -> (r: String)
    ensures
        r@ == "none"@,
{
    "none".to_owned()
}

/// How many candidate entries the modules after the baseline hold, counting
/// the first `i` modules.
pub open spec fn candidate_count(mods: Seq<CandidateInfo>, i: int) -> nat
    decreases i,
{
    if i <= 1 {
        0
    } else {
        candidate_count(mods, i - 1) + mods[i - 1].functions@.len()
    }
}


/// A row's provenance for the string family: some candidate entry of some
/// module after the baseline supplied its metadata and computed value.
pub open spec fn row_from_module(
    row: BenchmarkResult,
    mods: Seq<CandidateInfo>,
    s: Seq<char>,
    t: Seq<char>,
) -> bool {
    exists|m: int, j: int|
        #![trigger mods[m].functions@[j]]
        1 <= m < mods.len() && 0 <= j < mods[m].functions@.len() && row.engine_name@
            == mods[m].engine_name@ && row.function_name@ == mods[m].function_names@[j]@
            && row.date == mods[m].dates@[j] && row.status == mods[m].status@[j] && row.value
            == mods[m].functions@[j].model(s, t)
}

/// A candidate row is labelled correctly against the baseline measurement: a
/// zero value empties the metric and takes the `none` sentinel, any other
/// value carries the speedup of the row's own measured metric over the
/// baseline's.
pub open spec fn labelled_row(row: BenchmarkResult, base_runs: u64, base_nanos: u64) -> bool {
    &&& row.value == 0 ==> row.runs == 0 && row.elapsed_nanos == 0 && row.speedup@ == "none"@
    &&& row.value != 0 ==> row.runs >= 1 && row.speedup@ == speedup_label_spec(
        base_runs,
        base_nanos,
        row.runs,
        row.elapsed_nanos,
    )
}

/// Measure every candidate of every module after the baseline and append one
/// labelled row per candidate: the speedup field compares the candidate's
/// measured rate with the baseline measurement, and a candidate whose
/// computed value is 0 is recorded with an empty metric and the `none`
/// sentinel, as no timing of a placeholder result means anything.
pub fn get_fun_results(
    fun_duration: u64,
    input1: &str,
    input2: &str,
    modules: Vec<CandidateInfo>,
    results: &mut Vec<BenchmarkResult>,
    baseline_result: (usize, Throughput),
)
    requires
        fun_duration <= 18_000_000_000,
        input1.is_ascii(),
        input2.is_ascii(),
        input1@.len() + input2@.len() < usize::MAX,
        forall|i: int| 0 <= i < modules@.len() ==> (#[trigger] modules@[i]).wf(),
    ensures
        final(results)@.len() == old(results)@.len() + candidate_count(
            modules@,
            modules@.len() as int,
        ),
        forall|k: int| 0 <= k < old(results)@.len() ==> final(results)@[k] == old(results)@[k],
        forall|k: int|
            old(results)@.len() <= k < final(results)@.len() ==> #[trigger] labelled_row(
                final(results)@[k],
                baseline_result.1.runs,
                baseline_result.1.elapsed_nanos,
            ),
        forall|k: int|
            old(results)@.len() <= k < final(results)@.len() ==> #[trigger] row_from_module(
                final(results)@[k],
                modules@,
                input1@,
                input2@,
            ),
{
    let ghost old_len = results@.len();
    if modules.len() <= 1 {
        return ;
    }
    let mut i: usize = 1;
    while i < modules.len()
        invariant
            1 <= i <= modules@.len(),
            fun_duration <= 18_000_000_000,
            input1.is_ascii(),
            input2.is_ascii(),
            input1@.len() + input2@.len() < usize::MAX,
            forall|m: int| 0 <= m < modules@.len() ==> (#[trigger] modules@[m]).wf(),
            results@.len() == old_len + candidate_count(modules@, i as int),
            forall|k: int| 0 <= k < old_len ==> results@[k] == old(results)@[k],
            forall|k: int|
                old_len <= k < results@.len() ==> #[trigger] labelled_row(
                    results@[k],
                    baseline_result.1.runs,
                    baseline_result.1.elapsed_nanos,
                ),
            forall|k: int|
                old_len <= k < results@.len() ==> #[trigger] row_from_module(
                    results@[k],
                    modules@,
                    input1@,
                    input2@,
                ),
        decreases modules@.len() - i,
    {
        let module = &modules[i];
        let mut j: usize = 0;
        while j < module.functions.len()
            invariant
                1 <= i < modules@.len(),
                0 <= j <= module.functions@.len(),
                module == modules@[i as int],
                fun_duration <= 18_000_000_000,
                input1.is_ascii(),
                input2.is_ascii(),
                input1@.len() + input2@.len() < usize::MAX,
                forall|m: int| 0 <= m < modules@.len() ==> (#[trigger] modules@[m]).wf(),
                results@.len() == old_len + candidate_count(modules@, i as int) + j,
                forall|k: int| 0 <= k < old_len ==> results@[k] == old(results)@[k],
                forall|k: int|
                    old_len <= k < results@.len() ==> #[trigger] labelled_row(
                        results@[k],
                        baseline_result.1.runs,
                        baseline_result.1.elapsed_nanos,
                    ),
                forall|k: int|
                    old_len <= k < results@.len() ==> #[trigger] row_from_module(
                        results@[k],
                        modules@,
                        input1@,
                        input2@,
                    ),
            decreases module.functions@.len() - j,
        {
            let function = &module.functions[j];
            let mod_result = run_for_duration(function, input1, input2, fun_duration);
            let value = mod_result.0 as u64;
            let row = if value == 0 {
                BenchmarkResult {
                    engine_name: module.engine_name.clone(),
                    function_name: module.function_names[j].clone(),
                    date: module.dates[j],
                    status: module.status[j],
                    value,
                    runs: 0,
                    elapsed_nanos: 0,
                    speedup: none_sentinel(),
                }
            } else {
                BenchmarkResult {
                    engine_name: module.engine_name.clone(),
                    function_name: module.function_names[j].clone(),
                    date: module.dates[j],
                    status: module.status[j],
                    value,
                    runs: mod_result.1.runs,
                    elapsed_nanos: mod_result.1.elapsed_nanos,
                    speedup: speedup_label(
                        baseline_result.1.runs,
                        baseline_result.1.elapsed_nanos,
                        mod_result.1.runs,
                        mod_result.1.elapsed_nanos,
                    ),
                }
            };
            proof {
                assert(labelled_row(row, baseline_result.1.runs, baseline_result.1.elapsed_nanos));
                assert(1 <= i < modules@.len() && 0 <= j < modules@[i as int].functions@.len()
                    && row.engine_name@ == modules@[i as int].engine_name@ && row.function_name@
                    == modules@[i as int].function_names@[j as int]@ && row.date
                    == modules@[i as int].dates@[j as int] && row.status
                    == modules@[i as int].status@[j as int] && row.value
                    == modules@[i as int].functions@[j as int].model(input1@, input2@));
                assert(row_from_module(row, modules@, input1@, input2@));
            }
            results.push(row);
            j = j + 1;
        }
        i = i + 1;
    }
}


/// How many candidate entries the numeric modules after the baseline hold,
/// counting the first `i` modules.
pub open spec fn candidate_count2(mods: Seq<CandidateInfo2>, i: int) -> nat
    decreases i,
{
    if i <= 1 {
        0
    } else {
        candidate_count2(mods, i - 1) + mods[i - 1].functions@.len()
    }
}

/// A row's provenance: some candidate entry of some module after the
/// baseline supplied its metadata, and its value is that candidate's computed
/// value (0 where the candidate cannot accept the input).
pub open spec fn row_from_module2(
    row: BenchmarkResult,
    mods: Seq<CandidateInfo2>,
    input: u64,
) -> bool {
    exists|m: int, j: int|
        #![trigger mods[m].functions@[j]]
        1 <= m < mods.len() && 0 <= j < mods[m].functions@.len() && row.engine_name@
            == mods[m].engine_name@ && row.function_name@ == mods[m].function_names@[j]@
            && row.date == mods[m].dates@[j] && row.status == mods[m].status@[j] && (
        mods[m].functions@[j].callable(input) ==> row.value == mods[m].functions@[j].model(input))
            && (!mods[m].functions@[j].callable(input) ==> row.value == 0)
}

/// A candidate row is labelled correctly against the baseline block: a zero
/// value empties the metric and takes the `none` sentinel; otherwise the
/// speedup compares the row's own measured metric against the baseline row of
/// the row's own family, and is the `none` sentinel where that family has no
/// baseline row.
pub open spec fn labelled_row2(row: BenchmarkResult, baselines: Seq<BenchmarkResult>) -> bool {
    &&& row.value == 0 ==> row.runs == 0 && row.elapsed_nanos == 0 && row.speedup@ == "none"@
    &&& row.value != 0 ==> {
        &&& forall|b: int|
            0 <= b < baselines.len() && (#[trigger] baselines[b]).function_name@
                == row.function_name@ ==> row.runs >= 1 && row.speedup@ == speedup_label_spec(
                baselines[b].runs,
                baselines[b].elapsed_nanos,
                row.runs,
                row.elapsed_nanos,
            )
        &&& (forall|b: int|
            0 <= b < baselines.len() ==> (#[trigger] baselines[b]).function_name@
                != row.function_name@) ==> row.speedup@ == "none"@
    }
}

/// Measure every numeric candidate of every module after the baseline and
/// append one labelled row per candidate.  The rows already in `results` up
/// to `baselines_len` are the per-family baseline measurements: a candidate's
/// speedup is computed against the baseline row carrying its own family
/// label, never another family's.  A candidate that cannot accept the input
/// without overflowing, a candidate whose computed value is 0, and a
/// candidate whose family has no baseline row are all recorded with the
/// `none` sentinel.
pub fn get_fun_results2(
    fun_duration: u64,
    input: u64,
    modules: Vec<CandidateInfo2>,
    results: &mut Vec<BenchmarkResult>,
    baselines_len: usize,
)
    requires
        fun_duration <= 18_000_000_000,
        baselines_len <= old(results)@.len(),
        forall|i: int| 0 <= i < modules@.len() ==> (#[trigger] modules@[i]).wf(),
        forall|b1: int, b2: int|
            0 <= b1 < b2 < baselines_len ==> (#[trigger] old(results)@[b1]).function_name@ != (
            #[trigger] old(results)@[b2]).function_name@,
    ensures
        final(results)@.len() == old(results)@.len() + candidate_count2(
            modules@,
            modules@.len() as int,
        ),
        forall|k: int| 0 <= k < old(results)@.len() ==> final(results)@[k] == old(results)@[k],
        forall|k: int|
            old(results)@.len() <= k < final(results)@.len() ==> #[trigger] labelled_row2(
                final(results)@[k],
                old(results)@.take(baselines_len as int),
            ),
        forall|k: int|
            old(results)@.len() <= k < final(results)@.len() ==> #[trigger] row_from_module2(
                final(results)@[k],
                modules@,
                input,
            ),
{
    let ghost old_len = results@.len();
    let ghost orig = results@;
    if modules.len() <= 1 {
        return ;
    }
    let mut i: usize = 1;
    while i < modules.len()
        invariant
            1 <= i <= modules@.len(),
            fun_duration <= 18_000_000_000,
            baselines_len <= old_len,
            old_len <= results@.len(),
            orig == old(results)@,
            orig.len() == old_len,
            forall|b1: int, b2: int|
                0 <= b1 < b2 < baselines_len ==> (#[trigger] orig[b1]).function_name@ != (
                #[trigger] orig[b2]).function_name@,
            forall|m: int| 0 <= m < modules@.len() ==> (#[trigger] modules@[m]).wf(),
            results@.len() == old_len + candidate_count2(modules@, i as int),
            forall|k: int| 0 <= k < old_len ==> results@[k] == orig[k],
            forall|k: int|
                old_len <= k < results@.len() ==> #[trigger] labelled_row2(
                    results@[k],
                    orig.take(baselines_len as int),
                ),
            forall|k: int|
                old_len <= k < results@.len() ==> #[trigger] row_from_module2(
                    results@[k],
                    modules@,
                    input,
                ),
        decreases modules@.len() - i,
    {
        let module = &modules[i];
        let mut j: usize = 0;
        while j < module.functions.len()
            invariant
                1 <= i < modules@.len(),
                0 <= j <= module.functions@.len(),
                module == modules@[i as int],
                fun_duration <= 18_000_000_000,
                baselines_len <= old_len,
                old_len <= results@.len(),
                orig == old(results)@,
                orig.len() == old_len,
                forall|b1: int, b2: int|
                    0 <= b1 < b2 < baselines_len ==> (#[trigger] orig[b1]).function_name@ != (
                    #[trigger] orig[b2]).function_name@,
                forall|m: int| 0 <= m < modules@.len() ==> (#[trigger] modules@[m]).wf(),
                results@.len() == old_len + candidate_count2(modules@, i as int) + j,
                forall|k: int| 0 <= k < old_len ==> results@[k] == orig[k],
                forall|k: int|
                    old_len <= k < results@.len() ==> #[trigger] labelled_row2(
                        results@[k],
                        orig.take(baselines_len as int),
                    ),
                forall|k: int|
                    old_len <= k < results@.len() ==> #[trigger] row_from_module2(
                        results@[k],
                        modules@,
                        input,
                    ),
            decreases module.functions@.len() - j,
        {
            let function = &module.functions[j];
            let runnable = function.callable_check(input);
            let mut value: u64 = 0;
            let mut measurement = Throughput { runs: 0, elapsed_nanos: 0 };
            if runnable {
                let mod_result = run_for_duration2(function, input, fun_duration);
                value = mod_result.0;
                measurement = mod_result.1;
            }
            let mut bi: usize = 0;
            let mut found: bool = false;
            while bi < baselines_len && !found
                invariant
                    bi <= baselines_len,
                    baselines_len <= old_len <= results@.len(),
                    forall|k: int| 0 <= k < old_len ==> results@[k] == orig[k],
                    j < module.functions@.len(),
                    module.wf(),
                    found ==> bi < baselines_len && orig[bi as int].function_name@
                        == module.function_names@[j as int]@,
                    !found ==> forall|b: int|
                        0 <= b < bi ==> (#[trigger] orig[b]).function_name@
                            != module.function_names@[j as int]@,
                decreases baselines_len - bi + (if found {
                    0int
                } else {
                    1int
                }),
            {
                if results[bi].function_name == module.function_names[j] {
                    found = true;
                } else {
                    bi = bi + 1;
                }
            }
            let speedup: String = if value == 0 {
                none_sentinel()
            } else if found {
                let base_runs = results[bi].runs;
                let base_nanos = results[bi].elapsed_nanos;
                speedup_label(base_runs, base_nanos, measurement.runs, measurement.elapsed_nanos)
            } else {
                none_sentinel()
            };
            let row = BenchmarkResult {
                engine_name: module.engine_name.clone(),
                function_name: module.function_names[j].clone(),
                date: module.dates[j],
                status: module.status[j],
                value,
                runs: if value == 0 {
                    0
                } else {
                    measurement.runs
                },
                elapsed_nanos: if value == 0 {
                    0
                } else {
                    measurement.elapsed_nanos
                },
                speedup,
            };
            proof {
                let base = orig.take(baselines_len as int);
                if value != 0 {
                    if found {
                        assert(results@[bi as int] == orig[bi as int]);
                        assert forall|b: int|
                            0 <= b < base.len() && (#[trigger] base[b]).function_name@
                                == row.function_name@ implies row.runs >= 1 && row.speedup@
                            == speedup_label_spec(
                            base[b].runs,
                            base[b].elapsed_nanos,
                            row.runs,
                            row.elapsed_nanos,
                        ) by {
                            assert(base[b] == orig[b]);
                            if b < bi as int {
                                assert(orig[b].function_name@ != row.function_name@);
                            }
                            if b > bi as int {
                                assert(orig[bi as int].function_name@ != orig[b].function_name@);
                            }
                            assert(b == bi as int);
                        }
                        assert(base[bi as int].function_name@ == row.function_name@);
                    } else {
                        assert forall|b: int| 0 <= b < base.len() implies (
                        #[trigger] base[b]).function_name@ != row.function_name@ by {
                            assert(base[b] == orig[b]);
                        }
                    }
                }
                assert(labelled_row2(row, base));
                assert(1 <= i < modules@.len() && 0 <= j < modules@[i as int].functions@.len()
                    && row.engine_name@ == modules@[i as int].engine_name@ && row.function_name@
                    == modules@[i as int].function_names@[j as int]@ && row.date
                    == modules@[i as int].dates@[j as int] && row.status
                    == modules@[i as int].status@[j as int] && (modules@[i as int].functions@[j as int].callable(input)
                    ==> row.value == modules@[i as int].functions@[j as int].model(input)) && (
                !modules@[i as int].functions@[j as int].callable(input) ==> row.value == 0));
                assert(row_from_module2(row, modules@, input));
            }
            results.push(row);
            j = j + 1;
        }
        i = i + 1;
    }
}


/// Run the full string-family benchmark: measure the baseline candidate,
/// record its row with the speedup sentinel, then measure and label every
/// other engine's candidates against it.
pub fn run_benchmarks(
    modules: Vec<CandidateInfo>,
    input1: &str,
    input2: &str,
    fun_duration: u64,
) -> (r: Vec<BenchmarkResult>)
    requires
        fun_duration <= 18_000_000_000,
        input1.is_ascii(),
        input2.is_ascii(),
        input1@.len() + input2@.len() < usize::MAX,
        modules@.len() >= 1,
        modules@[0].functions@.len() >= 1,
        forall|i: int| 0 <= i < modules@.len() ==> (#[trigger] modules@[i]).wf(),
    ensures
        r@.len() == 1 + candidate_count(modules@, modules@.len() as int),
        r@[0].speedup@ == "-----"@,
        r@[0].engine_name@ == modules@[0].engine_name@,
        r@[0].function_name@ == modules@[0].function_names@[0]@,
        r@[0].date == modules@[0].dates@[0],
        r@[0].status == modules@[0].status@[0],
        r@[0].value == modules@[0].functions@[0].model(input1@, input2@),
        r@[0].runs >= 1,
        forall|k: int|
            1 <= k < r@.len() ==> #[trigger] labelled_row(r@[k], r@[0].runs, r@[0].elapsed_nanos),
        forall|k: int|
            1 <= k < r@.len() ==> #[trigger] row_from_module(r@[k], modules@, input1@, input2@),
{
    let baseline_result = run_for_duration(&modules[0].functions[0], input1, input2, fun_duration);
    let mut results: Vec<BenchmarkResult> = Vec::new();
    let row = BenchmarkResult {
        engine_name: modules[0].engine_name.clone(),
        function_name: modules[0].function_names[0].clone(),
        date: modules[0].dates[0],
        status: modules[0].status[0],
        value: baseline_result.0 as u64,
        runs: baseline_result.1.runs,
        elapsed_nanos: baseline_result.1.elapsed_nanos,
        speedup: baseline_sentinel(),
    };
    results.push(row);
    get_fun_results(fun_duration, input1, input2, modules, &mut results, baseline_result);
    results
}

/// Run the full numeric-family benchmark: measure each of the baseline
/// engine's candidates, record their rows with the speedup sentinel, then
/// measure and label every other engine's candidates, each against the
/// baseline row of its own family.
pub fn run_benchmarks2(modules: Vec<CandidateInfo2>, input: u64, fun_duration: u64) -> (r: Vec<
    BenchmarkResult,
>)
    requires
        fun_duration <= 18_000_000_000,
        modules@.len() >= 1,
        forall|i: int| 0 <= i < modules@.len() ==> (#[trigger] modules@[i]).wf(),
        forall|j1: int, j2: int|
            0 <= j1 < j2 < modules@[0].function_names@.len() ==> (
            #[trigger] modules@[0].function_names@[j1])@ != (
            #[trigger] modules@[0].function_names@[j2])@,
    ensures
        r@.len() == modules@[0].functions@.len() + candidate_count2(
            modules@,
            modules@.len() as int,
        ),
        forall|k: int|
            0 <= k < modules@[0].functions@.len() ==> (#[trigger] r@[k]).speedup@ == "-----"@
                && r@[k].engine_name@ == modules@[0].engine_name@ && r@[k].function_name@
                == modules@[0].function_names@[k]@ && r@[k].date == modules@[0].dates@[k]
                && r@[k].status == modules@[0].status@[k] && (modules@[0].functions@[k].callable(
                input,
            ) ==> r@[k].value == modules@[0].functions@[k].model(input) && r@[k].runs >= 1) && (
            !modules@[0].functions@[k].callable(input) ==> r@[k].value == 0 && r@[k].runs == 0
                && r@[k].elapsed_nanos == 0),
        forall|k: int|
            modules@[0].functions@.len() <= k < r@.len() ==> #[trigger] labelled_row2(
                r@[k],
                r@.take(modules@[0].functions@.len() as int),
            ),
        forall|k: int|
            modules@[0].functions@.len() <= k < r@.len() ==> #[trigger] row_from_module2(
                r@[k],
                modules@,
                input,
            ),
{
    let baseline = &modules[0];
    let mut results: Vec<BenchmarkResult> = Vec::new();
    let mut k: usize = 0;
    while k < baseline.functions.len()
        invariant
            0 <= k <= baseline.functions@.len(),
            baseline == modules@[0],
            modules@.len() >= 1,
            fun_duration <= 18_000_000_000,
            baseline.wf(),
            results@.len() == k,
            forall|b: int|
                0 <= b < k ==> (#[trigger] results@[b]).speedup@ == "-----"@
                    && results@[b].engine_name@ == modules@[0].engine_name@
                    && results@[b].function_name@ == modules@[0].function_names@[b]@
                    && results@[b].date == modules@[0].dates@[b] && results@[b].status
                    == modules@[0].status@[b] && (modules@[0].functions@[b].callable(input)
                    ==> results@[b].value == modules@[0].functions@[b].model(input)
                    && results@[b].runs >= 1) && (!modules@[0].functions@[b].callable(input)
                    ==> results@[b].value == 0 && results@[b].runs == 0
                    && results@[b].elapsed_nanos == 0),
        decreases baseline.functions@.len() - k,
    {
        let function = &baseline.functions[k];
        let runnable = function.callable_check(input);
        let mut value: u64 = 0;
        let mut measurement = Throughput { runs: 0, elapsed_nanos: 0 };
        if runnable {
            let mod_result = run_for_duration2(function, input, fun_duration);
            value = mod_result.0;
            measurement = mod_result.1;
        }
        let row = BenchmarkResult {
            engine_name: baseline.engine_name.clone(),
            function_name: baseline.function_names[k].clone(),
            date: baseline.dates[k],
            status: baseline.status[k],
            value,
            runs: measurement.runs,
            elapsed_nanos: measurement.elapsed_nanos,
            speedup: baseline_sentinel(),
        };
        results.push(row);
        k = k + 1;
    }
    let ghost base_block = results@;
    proof {
        assert forall|j1: int, j2: int|
            0 <= j1 < j2 < results@.len() implies (#[trigger] results@[j1]).function_name@ != (
        #[trigger] results@[j2]).function_name@ by {
            assert(modules@[0].function_names@[j1]@ != modules@[0].function_names@[j2]@);
        }
    }
    let baselines_len = results.len();
    get_fun_results2(fun_duration, input, modules, &mut results, baselines_len);
    proof {
        assert(base_block.take(base_block.len() as int) =~= base_block);
        assert(results@.take(base_block.len() as int) =~= base_block);
    }
    results
}

} // verus!
