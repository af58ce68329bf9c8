//! The timing protocol: duration-bounded repeated invocation against the
//! monotonic clock, with a result-use barrier so the optimizer cannot elide
//! the measured computation.  The clock readings themselves are trusted;
//! everything computed from them is verified for every value they can take.

use vstd::prelude::*;

use crate::common::NumFunction;
use crate::common::StrFunction;

verus! {

#[verifier::external_type_specification]
#[verifier::external_body]
pub struct ExInstant(std::time::Instant);

/// Relies on std::time::Instant::now: one reading of the monotonic clock.
#[verifier::external_body]
fn instant_now() -> std::time::Instant {
    std::time::Instant::now()
}

/// Relies on std::time::Instant::elapsed: the wall-clock time since the
/// reading was taken, in nanoseconds.  Nothing is assumed of the value; the
/// measurement logic is verified for every reading the clock can hand back.
#[verifier::external_body]
fn nanos_since(start: &std::time::Instant) -> u64 {
    start.elapsed().as_nanos() as u64
}

/// Relies on std::hint::black_box: hands its argument back unchanged while
/// keeping it observable, so the optimizer cannot discard the computation
/// that produced it.
#[verifier::external_body]
fn observe(v: u64) -> (r: u64)
    ensures
        r == v,
{
    std::hint::black_box(v)
}

/// Relies on std::hint::black_box, for the string family's result values.
#[verifier::external_body]
fn observe_usize(v: usize) -> (r: usize)
    ensures
        r == v,
{
    std::hint::black_box(v)
}

/// One duration-bounded measurement: how many invocations completed and the
/// total wall-clock time they took, in nanoseconds.
#[derive(Copy, Clone, Debug, PartialEq, Eq, Structural)]
pub struct Throughput {
    pub runs: u64,
    pub elapsed_nanos: u64,
}

/// Invoke an edit-distance callable repeatedly until the requested wall-clock
/// duration has passed, and report the last result with the invocation count
/// and the time actually spent.  The deadline is only checked after an
/// invocation completes, so at least one invocation is always counted, even
/// for a zero duration; the run count stops at the largest representable
/// count rather than wrapping.
pub fn run_for_duration(
    f: &StrFunction,
    input1: &str,
    input2: &str,
    duration_sec: u64,
) -> (r: (usize, Throughput))
    requires
        f.callable(input1, input2),
        duration_sec <= 18_000_000_000,
    ensures
        r.0 == f.model(input1@, input2@),
        1 <= r.1.runs,
        r.1.elapsed_nanos >= duration_sec * 1_000_000_000 || r.1.runs == u64::MAX,
{
    let duration_nanos = duration_sec * 1_000_000_000;
    let start = instant_now();
    let mut result = f.call(input1, input2);
    result = observe_usize(result);
    let mut runs: u64 = 1;
    let mut elapsed = nanos_since(&start);
    while elapsed < duration_nanos && runs < u64::MAX
        invariant
            1 <= runs,
            result == f.model(input1@, input2@),
            f.callable(input1, input2),
        decreases u64::MAX - runs,
    {
        result = f.call(input1, input2);
        result = observe_usize(result);
        runs = runs + 1;
        elapsed = nanos_since(&start);
    }
    (result, Throughput { runs, elapsed_nanos: elapsed })
}

/// The numeric-family counterpart of [`run_for_duration`].
pub fn run_for_duration2(f: &NumFunction, input: u64, duration_sec: u64) -> (r: (u64, Throughput))
    requires
        f.callable(input),
        duration_sec <= 18_000_000_000,
    ensures
        r.0 == f.model(input),
        1 <= r.1.runs,
        r.1.elapsed_nanos >= duration_sec * 1_000_000_000 || r.1.runs == u64::MAX,
{
    let duration_nanos = duration_sec * 1_000_000_000;
    let start = instant_now();
    let mut result = f.call(input);
    result = observe(result);
    let mut runs: u64 = 1;
    let mut elapsed = nanos_since(&start);
    while elapsed < duration_nanos && runs < u64::MAX
        invariant
            1 <= runs,
            result == f.model(input),
            f.callable(input),
        decreases u64::MAX - runs,
    {
        result = f.call(input);
        result = observe(result);
        runs = runs + 1;
        elapsed = nanos_since(&start);
    }
    (result, Throughput { runs, elapsed_nanos: elapsed })
}


/// Single-shot timing: one invocation through the dispatch boundary, with
/// the clock read immediately before and after, and the result passed
/// through the barrier only after timing stops, so the write is not measured
/// but the computation cannot be discarded.  The result is exactly the
/// callable's own output; the elapsed time is whatever the clock showed.
pub fn time_once(f: &StrFunction, input1: &str, input2: &str) -> (r: (usize, u64))
    requires
        f.callable(input1, input2),
    ensures
        r.0 == f.model(input1@, input2@),
{
    let start = instant_now();
    let result = f.call(input1, input2);
    let elapsed = nanos_since(&start);
    let result = observe_usize(result);
    (result, elapsed)
}

/// The numeric-family counterpart of [`time_once`].
pub fn time_once2(f: &NumFunction, input: u64) -> (r: (u64, u64))
    requires
        f.callable(input),
    ensures
        r.0 == f.model(input),
{
    let start = instant_now();
    let result = f.call(input);
    let elapsed = nanos_since(&start);
    let result = observe(result);
    (result, elapsed)
}

} // verus!
