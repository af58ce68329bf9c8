//! A benchmarking harness for interchangeable implementations of a handful of
//! small, pure algorithms (edit distance, divisor sums, prime counting,
//! Fibonacci, and so on).  Each candidate implementation is attributed to an
//! engine and a submission date, carries a generation status, and is measured
//! by repeated timed invocation; the results are grouped by function family,
//! ranked, and rendered with a speedup figure relative to the family's
//! baseline entry.

pub mod arith;
pub mod baseline;
pub mod common;
pub mod distance;
pub mod harness;
pub mod module1;
pub mod module2;
pub mod module3;
pub mod module4;
pub mod module_baseline;
pub mod module_claude;
pub mod module_copilot;
pub mod module_deepseek;
pub mod module_gemini;
pub mod module_grok;
pub mod module_openai;
pub mod module_synthaai;
pub mod module_watson;
pub mod numeral;
pub mod oracle;
pub mod registry;
pub mod report;
pub mod timing;
