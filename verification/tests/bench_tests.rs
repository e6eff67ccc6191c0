use wasm_bench::{
    benches_to_run, report_prefix, runner, target, Bench, BenchSelection, Runner, Target,
    WasmModule, WasmiVersion, WasmtimeVersion,
};

const WASMI: [WasmiVersion; 3] = [WasmiVersion::V009, WasmiVersion::V013, WasmiVersion::V016];
const WASMTIME: [WasmtimeVersion; 8] = [
    WasmtimeVersion::V033,
    WasmtimeVersion::V034,
    WasmtimeVersion::V035,
    WasmtimeVersion::V036,
    WasmtimeVersion::V037,
    WasmtimeVersion::V038,
    WasmtimeVersion::V039,
    WasmtimeVersion::V040,
];

fn all_targets() -> Vec<Target> {
    let mut v = Vec::new();
    for wi in WASMI {
        for wt in WASMTIME {
            v.push(Target::WasmiUnderWasmtime(wi, wt));
        }
    }
    for wi in WASMI {
        v.push(Target::WasmiOnBareMetal(wi));
    }
    for wt in WASMTIME {
        v.push(Target::Wasmtime(wt));
    }
    v.push(Target::BareMetal);
    v
}

#[test]
fn target_labels() {
    assert_eq!(
        target(Target::WasmiUnderWasmtime(WasmiVersion::V016, WasmtimeVersion::V040)),
        "wasmi_016_under_wasmtime_040"
    );
    assert_eq!(target(Target::WasmiOnBareMetal(WasmiVersion::V009)), "wasmi_009_on_bare_metal");
    assert_eq!(target(Target::Wasmtime(WasmtimeVersion::V033)), "wasmtime_033");
    assert_eq!(target(Target::BareMetal), "bare_metal");
}

#[test]
fn target_labels_are_distinct() {
    let targets = all_targets();
    assert_eq!(targets.len(), 24 + 3 + 8 + 1);
    for (i, a) in targets.iter().enumerate() {
        for (j, b) in targets.iter().enumerate() {
            assert_eq!(i == j, target(*a) == target(*b));
        }
    }
}

#[test]
fn runner_under_wasmtime_uses_kernel_exports() {
    let t = Target::WasmiUnderWasmtime(WasmiVersion::V013, WasmtimeVersion::V037);
    match runner(Bench::Coremark, t) {
        Some(Runner::Wasmtime { module, wasmtime, entry_point }) => {
            assert_eq!(module, WasmModule::KernelWasmi(WasmiVersion::V013));
            assert_eq!(wasmtime, WasmtimeVersion::V037);
            assert_eq!(entry_point, "run_coremark");
        }
        other => panic!("unexpected runner {:?}", other),
    }
    match runner(Bench::Noop, t) {
        Some(Runner::Wasmtime { entry_point, .. }) => assert_eq!(entry_point, "run_noop"),
        other => panic!("unexpected runner {:?}", other),
    }
    match runner(Bench::RegexRedux, t) {
        Some(Runner::Wasmtime { entry_point, .. }) => assert_eq!(entry_point, "run_regexredux"),
        other => panic!("unexpected runner {:?}", other),
    }
}

#[test]
fn runner_on_wasmtime_uses_standalone_modules() {
    let t = Target::Wasmtime(WasmtimeVersion::V040);
    match runner(Bench::Coremark, t) {
        Some(Runner::Wasmtime { module, entry_point, .. }) => {
            assert_eq!(module, WasmModule::Coremark);
            assert_eq!(entry_point, "run");
        }
        other => panic!("unexpected runner {:?}", other),
    }
    match runner(Bench::RegexRedux, t) {
        Some(Runner::Wasmtime { module, entry_point, .. }) => {
            assert_eq!(module, WasmModule::RegexRedux);
            assert_eq!(entry_point, "run_regexredux");
        }
        other => panic!("unexpected runner {:?}", other),
    }
    match runner(Bench::Noop, t) {
        Some(Runner::Wasmtime { module, entry_point, .. }) => {
            assert_eq!(module, WasmModule::Noop);
            assert_eq!(entry_point, "run_noop");
        }
        other => panic!("unexpected runner {:?}", other),
    }
}

#[test]
fn runner_on_bare_metal() {
    assert!(matches!(runner(Bench::RegexRedux, Target::BareMetal), Some(Runner::Native(Bench::RegexRedux))));
    assert!(runner(Bench::Coremark, Target::BareMetal).is_none());
    assert!(runner(Bench::Noop, Target::BareMetal).is_none());
    match runner(Bench::Noop, Target::WasmiOnBareMetal(WasmiVersion::V016)) {
        Some(Runner::Wasmi { wasmi, bench }) => {
            assert_eq!(wasmi, WasmiVersion::V016);
            assert_eq!(bench, Bench::Noop);
        }
        other => panic!("unexpected runner {:?}", other),
    }
}

#[test]
fn benches_in_order() {
    let all = BenchSelection { regexredux: true, coremark: true, noop: true };
    assert_eq!(
        benches_to_run(all, Target::Wasmtime(WasmtimeVersion::V035)),
        vec![Bench::RegexRedux, Bench::Coremark, Bench::Noop]
    );
    let some = BenchSelection { regexredux: false, coremark: true, noop: true };
    assert_eq!(
        benches_to_run(some, Target::WasmiOnBareMetal(WasmiVersion::V009)),
        vec![Bench::Coremark, Bench::Noop]
    );
}

#[test]
fn bare_metal_reports_only_regexredux() {
    let all = BenchSelection { regexredux: true, coremark: true, noop: true };
    assert_eq!(benches_to_run(all, Target::BareMetal), vec![Bench::RegexRedux]);
    let none = BenchSelection { regexredux: false, coremark: true, noop: true };
    assert!(benches_to_run(none, Target::BareMetal).is_empty());
}

#[test]
fn reported_benches_law_on_every_target() {
    for t in all_targets() {
        for bits in 0..8u8 {
            let sel = BenchSelection {
                regexredux: bits & 1 != 0,
                coremark: bits & 2 != 0,
                noop: bits & 4 != 0,
            };
            let run = benches_to_run(sel, t);
            for (b, chosen) in [(Bench::RegexRedux, sel.regexredux), (Bench::Coremark, sel.coremark), (Bench::Noop, sel.noop)] {
                let expected = chosen && (t != Target::BareMetal || b == Bench::RegexRedux);
                assert_eq!(run.contains(&b), expected);
            }
        }
    }
}

#[test]
fn report_prefixes() {
    assert_eq!(report_prefix(Bench::RegexRedux, Target::BareMetal), "regexredux,bare_metal,");
    assert_eq!(
        report_prefix(Bench::Coremark, Target::Wasmtime(WasmtimeVersion::V038)),
        "coremark,wasmtime_038,"
    );
    assert_eq!(
        report_prefix(Bench::Noop, Target::WasmiOnBareMetal(WasmiVersion::V013)),
        "noop,wasmi_013_on_bare_metal,"
    );
}
