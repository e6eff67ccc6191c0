//! Decisions and checks of a small WebAssembly runtime benchmark: which
//! runner executes which benchmark on which target, how targets are labelled,
//! the host functions offered to the guest, and the regex-redux kernel.

pub mod bench;
pub mod clock;
pub mod kernel_wasmi;
pub mod pattern;
pub mod regexredux;
pub mod syntax;

pub use bench::{
    benches_to_run, report_prefix, runner, target, Bench, BenchSelection, Runner, Target,
    WasmModule, WasmiVersion, WasmtimeVersion,
};
pub use clock::clock_ms;
pub use kernel_wasmi::{invoke_index, resolve_func, run_noop_impl, HostTrap};
pub use pattern::{InvalidPattern, Pattern};
pub use regexredux::{
    count_variants, regexredux_total, run_regexredux_impl, strip_headers, substitute,
    RegexReduxError,
};
