use std::cell::Cell;
use wasm_bench::kernel_wasmi::{CLOCK_MS_INDEX, CLOCK_MS_NAME, HOST_MODULE, NOOP_RUNS};
use wasm_bench::{clock_ms, invoke_index, resolve_func, run_noop_impl, HostTrap};

#[test]
fn host_names() {
    assert_eq!(HOST_MODULE, "env");
    assert_eq!(CLOCK_MS_NAME, "clock_ms");
    assert_eq!(CLOCK_MS_INDEX, 0);
}

#[test]
fn resolves_the_clock() {
    assert_eq!(resolve_func("clock_ms"), Ok(0));
}

#[test]
fn refuses_other_imports() {
    assert_eq!(resolve_func("memory"), Err("Export memory not found".to_string()));
    assert_eq!(resolve_func(""), Err("Export  not found".to_string()));
    assert_eq!(resolve_func("clock_m"), Err("Export clock_m not found".to_string()));
}

#[test]
fn resolved_import_can_be_invoked() {
    let clock = || 7i64;
    let index = resolve_func("clock_ms").unwrap();
    assert_eq!(invoke_index(&clock, index), Ok(7));
}

#[test]
fn invoke_reads_the_clock() {
    let clock = || 1234i64;
    assert_eq!(invoke_index(&clock, 0), Ok(1234));
}

#[test]
fn invoke_other_index_traps() {
    let clock = || 1234i64;
    assert_eq!(invoke_index(&clock, 1), Err(HostTrap::Unreachable));
    assert_eq!(invoke_index(&clock, usize::MAX), Err(HostTrap::Unreachable));
}

#[test]
fn noop_runs_and_measures() {
    let ticks = Cell::new(100i64);
    let clock = || {
        let t = ticks.get();
        ticks.set(t + 5);
        t
    };
    let runs = Cell::new(0u32);
    let elapsed = run_noop_impl(clock, || runs.set(runs.get() + 1));
    assert_eq!(runs.get(), NOOP_RUNS);
    assert_eq!(runs.get(), 10000);
    assert_eq!(elapsed, 5);
}

#[test]
fn noop_elapsed_wraps() {
    let first = Cell::new(true);
    let clock = || {
        if first.get() {
            first.set(false);
            i64::MIN
        } else {
            i64::MAX
        }
    };
    assert_eq!(run_noop_impl(clock, || ()), -1);
}

#[test]
fn clock_counts_up_from_zero() {
    let clock = clock_ms();
    let a = clock();
    std::hint::black_box(0);
    let b = clock.clone()();
    assert!(a >= 0);
    assert!(b >= a);
    assert!(b < 60_000);
}
