//! Core of a crash-reproduction worker task: the task configuration, the
//! placeholder expansion that turns argument and environment templates into a
//! concrete analyzer invocation, and the supervised loop that runs the
//! analyzer indefinitely, tolerating per-run failures.

pub mod config;
pub mod expand;
pub mod invocation;
pub mod machine;
