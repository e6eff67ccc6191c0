use vstd::prelude::*;

verus! {

/// The `wasmi` interpreter release a target is built with.
#[derive(Clone, Copy, Debug, PartialEq, Eq, Structural)]
pub enum WasmiVersion {
    V009,
    V013,
    V016,
}

/// The `wasmtime` release a target is built with.
#[derive(Clone, Copy, Debug, PartialEq, Eq, Structural)]
pub enum WasmtimeVersion {
    V033,
    V034,
    V035,
    V036,
    V037,
    V038,
    V039,
    V040,
}

/// Where the benchmark kernels run.
#[derive(Clone, Copy, Debug, PartialEq, Eq, Structural)]
pub enum Target {
    /// The wasmi interpreter, itself compiled to WebAssembly, running under wasmtime.
    WasmiUnderWasmtime(WasmiVersion, WasmtimeVersion),
    /// The wasmi interpreter running natively.
    WasmiOnBareMetal(WasmiVersion),
    /// The kernels compiled to WebAssembly, running under wasmtime.
    Wasmtime(WasmtimeVersion),
    /// The kernels running natively.
    BareMetal,
}

pub open spec fn wasmi_label(v: WasmiVersion) -> Seq<char> {
    match v {
        WasmiVersion::V009 => "wasmi_009"@,
        WasmiVersion::V013 => "wasmi_013"@,
        WasmiVersion::V016 => "wasmi_016"@,
    }
}

pub open spec fn wasmtime_label(v: WasmtimeVersion) -> Seq<char> {
    match v {
        WasmtimeVersion::V033 => "wasmtime_033"@,
        WasmtimeVersion::V034 => "wasmtime_034"@,
        WasmtimeVersion::V035 => "wasmtime_035"@,
        WasmtimeVersion::V036 => "wasmtime_036"@,
        WasmtimeVersion::V037 => "wasmtime_037"@,
        WasmtimeVersion::V038 => "wasmtime_038"@,
        WasmtimeVersion::V039 => "wasmtime_039"@,
        WasmtimeVersion::V040 => "wasmtime_040"@,
    }
}

/// The release number of a wasmtime release: `xy` for release `0.xy`.
pub open spec fn wasmtime_release(v: WasmtimeVersion) -> nat {
    match v {
        WasmtimeVersion::V033 => 33,
        WasmtimeVersion::V034 => 34,
        WasmtimeVersion::V035 => 35,
        WasmtimeVersion::V036 => 36,
        WasmtimeVersion::V037 => 37,
        WasmtimeVersion::V038 => 38,
        WasmtimeVersion::V039 => 39,
        WasmtimeVersion::V040 => 40,
    }
}

/// The release number of a wasmi release: `xy` for release `0.xy`.
pub open spec fn wasmi_release(v: WasmiVersion) -> nat {
    match v {
        WasmiVersion::V009 => 9,
        WasmiVersion::V013 => 13,
        WasmiVersion::V016 => 16,
    }
}

/// The decimal digit `d` as a character.
pub open spec fn digit(d: nat) -> char {
    (48 + d) as char
}

/// The two decimal digits of a release number below 100.
pub open spec fn two_digits(n: nat) -> Seq<char> {
    seq![digit(n / 10), digit(n % 10)]
}

/// A wasmtime label names its release: `wasmtime_0` and the two digits of
/// the release number.
pub proof fn lemma_wasmtime_label_names_release(v: WasmtimeVersion)
    ensures
        wasmtime_label(v) == "wasmtime_0"@ + two_digits(wasmtime_release(v)),
{
    reveal_strlit("wasmtime_0");
    reveal_strlit("wasmtime_033");
    reveal_strlit("wasmtime_034");
    reveal_strlit("wasmtime_035");
    reveal_strlit("wasmtime_036");
    reveal_strlit("wasmtime_037");
    reveal_strlit("wasmtime_038");
    reveal_strlit("wasmtime_039");
    reveal_strlit("wasmtime_040");
    assert(wasmtime_label(v) =~= "wasmtime_0"@ + two_digits(wasmtime_release(v)));
}

/// A wasmi label names its release: `wasmi_0` and the two digits of the
/// release number.
pub proof fn lemma_wasmi_label_names_release(v: WasmiVersion)
    ensures
        wasmi_label(v) == "wasmi_0"@ + two_digits(wasmi_release(v)),
{
    reveal_strlit("wasmi_0");
    reveal_strlit("wasmi_009");
    reveal_strlit("wasmi_013");
    reveal_strlit("wasmi_016");
    assert(wasmi_label(v) =~= "wasmi_0"@ + two_digits(wasmi_release(v)));
}

/// The label under which results for a target are reported.
pub open spec fn target_label(t: Target) -> Seq<char> {
    match t {
        Target::WasmiUnderWasmtime(wi, wt) => wasmi_label(wi) + "_under_"@ + wasmtime_label(wt),
        Target::WasmiOnBareMetal(wi) => wasmi_label(wi) + "_on_bare_metal"@,
        Target::Wasmtime(wt) => wasmtime_label(wt),
        Target::BareMetal => "bare_metal"@,
    }
}

proof fn lemma_wasmi_label(a: WasmiVersion, b: WasmiVersion)
    ensures
        wasmi_label(a).len() == 9,
        wasmi_label(a) == wasmi_label(b) <==> a == b,
{
    reveal_strlit("wasmi_009");
    reveal_strlit("wasmi_013");
    reveal_strlit("wasmi_016");
    if a != b {
        assert(wasmi_label(a)[7] != wasmi_label(b)[7] || wasmi_label(a)[8] != wasmi_label(b)[8]);
    }
}

proof fn lemma_wasmtime_label(a: WasmtimeVersion, b: WasmtimeVersion)
    ensures
        wasmtime_label(a).len() == 12,
        wasmtime_label(a) == wasmtime_label(b) <==> a == b,
{
    reveal_strlit("wasmtime_033");
    reveal_strlit("wasmtime_034");
    reveal_strlit("wasmtime_035");
    reveal_strlit("wasmtime_036");
    reveal_strlit("wasmtime_037");
    reveal_strlit("wasmtime_038");
    reveal_strlit("wasmtime_039");
    reveal_strlit("wasmtime_040");
    if a != b {
        assert(wasmtime_label(a)[10] != wasmtime_label(b)[10] || wasmtime_label(a)[11] != wasmtime_label(b)[11]);
    }
}

/// Target labels identify targets: two different targets are never reported
/// under the same label.
pub proof fn lemma_target_label_injective(a: Target, b: Target)
    ensures
        target_label(a) == target_label(b) <==> a == b,
{
    reveal_strlit("_under_");
    reveal_strlit("_on_bare_metal");
    reveal_strlit("bare_metal");
    match (a, b) {
        (Target::WasmiUnderWasmtime(wi1, wt1), Target::WasmiUnderWasmtime(wi2, wt2)) => {
            lemma_wasmi_label(wi1, wi2);
            lemma_wasmi_label(wi2, wi1);
            lemma_wasmtime_label(wt1, wt2);
            lemma_wasmtime_label(wt2, wt1);
            if target_label(a) == target_label(b) {
                assert(target_label(a).subrange(0, 9) =~= wasmi_label(wi1));
                assert(target_label(b).subrange(0, 9) =~= wasmi_label(wi2));
                assert(target_label(a).subrange(16, 28) =~= wasmtime_label(wt1));
                assert(target_label(b).subrange(16, 28) =~= wasmtime_label(wt2));
            }
        },
        (Target::WasmiOnBareMetal(wi1), Target::WasmiOnBareMetal(wi2)) => {
            lemma_wasmi_label(wi1, wi2);
            lemma_wasmi_label(wi2, wi1);
            if target_label(a) == target_label(b) {
                assert(target_label(a).subrange(0, 9) =~= wasmi_label(wi1));
                assert(target_label(b).subrange(0, 9) =~= wasmi_label(wi2));
            }
        },
        (Target::Wasmtime(wt1), Target::Wasmtime(wt2)) => {
            lemma_wasmtime_label(wt1, wt2);
        },
        (Target::BareMetal, Target::BareMetal) => {},
        _ => {
            lemma_target_label_len(a);
            lemma_target_label_len(b);
        },
    }
}

/// Each kind of target has labels of one length of its own.
proof fn lemma_target_label_len(t: Target)
    ensures
        target_label(t).len() == match t {
            Target::WasmiUnderWasmtime(_, _) => 28int,
            Target::WasmiOnBareMetal(_) => 23int,
            Target::Wasmtime(_) => 12int,
            Target::BareMetal => 10int,
        },
{
    reveal_strlit("_under_");
    reveal_strlit("_on_bare_metal");
    reveal_strlit("bare_metal");
    match t {
        Target::WasmiUnderWasmtime(wi, wt) => {
            lemma_wasmi_label(wi, wi);
            lemma_wasmtime_label(wt, wt);
        },
        Target::WasmiOnBareMetal(wi) => {
            lemma_wasmi_label(wi, wi);
        },
        Target::Wasmtime(wt) => {
            lemma_wasmtime_label(wt, wt);
        },
        Target::BareMetal => {},
    }
}

/// The name of a wasmi release, as it appears in target labels.
pub fn wasmi_version_name(v: WasmiVersion) -> (s: &'static str)
    ensures
        s@ == wasmi_label(v),
{
    match v {
        WasmiVersion::V009 => "wasmi_009",
        WasmiVersion::V013 => "wasmi_013",
        WasmiVersion::V016 => "wasmi_016",
    }
}

/// The name of a wasmtime release, as it appears in target labels.
pub fn wasmtime_version_name(v: WasmtimeVersion) -> (s: &'static str)
    ensures
        s@ == wasmtime_label(v),
{
    match v {
        WasmtimeVersion::V033 => "wasmtime_033",
        WasmtimeVersion::V034 => "wasmtime_034",
        WasmtimeVersion::V035 => "wasmtime_035",
        WasmtimeVersion::V036 => "wasmtime_036",
        WasmtimeVersion::V037 => "wasmtime_037",
        WasmtimeVersion::V038 => "wasmtime_038",
        WasmtimeVersion::V039 => "wasmtime_039",
        WasmtimeVersion::V040 => "wasmtime_040",
    }
}

/// The label of a target: `<wasmi>_under_<wasmtime>`, `<wasmi>_on_bare_metal`,
/// `<wasmtime>` or `bare_metal`.
pub fn target(t: Target) -> (s: String)
    ensures
        s@ == target_label(t),
{
    match t {
        Target::WasmiUnderWasmtime(wi, wt) => {
            let mut s = String::from_str(wasmi_version_name(wi));
            s.append("_under_");
            s.append(wasmtime_version_name(wt));
            s
        },
        Target::WasmiOnBareMetal(wi) => {
            let mut s = String::from_str(wasmi_version_name(wi));
            s.append("_on_bare_metal");
            s
        },
        Target::Wasmtime(wt) => String::from_str(wasmtime_version_name(wt)),
        Target::BareMetal => String::from_str("bare_metal"),
    }
}

/// The benchmarks.
#[derive(Clone, Copy, Debug, PartialEq, Eq, Structural)]
pub enum Bench {
    RegexRedux,
    Coremark,
    Noop,
}

/// The compiled WebAssembly modules the benchmark can load.
#[derive(Clone, Copy, Debug, PartialEq, Eq, Structural)]
pub enum WasmModule {
    /// The wasmi interpreter with the kernels built in, compiled against a wasmi release.
    KernelWasmi(WasmiVersion),
    /// The CoreMark kernel.
    Coremark,
    /// The regex-redux kernel.
    RegexRedux,
    /// The kernel that does nothing.
    Noop,
}

/// How one benchmark is run on one target.
#[derive(Clone, Copy, Debug)]
pub enum Runner {
    /// Load `module` into wasmtime and call its export `entry_point`.
    Wasmtime { module: WasmModule, wasmtime: WasmtimeVersion, entry_point: &'static str },
    /// Run the benchmark's kernel under the wasmi interpreter on the host.
    Wasmi { wasmi: WasmiVersion, bench: Bench },
    /// Run the benchmark's kernel natively.
    Native(Bench),
}

/// The export of the wasmi-with-kernels module that runs a benchmark.
pub open spec fn kernel_wasmi_export(b: Bench) -> &'static str {
    match b {
        Bench::RegexRedux => "run_regexredux",
        Bench::Coremark => "run_coremark",
        Bench::Noop => "run_noop",
    }
}

/// The stand-alone module of a benchmark.
pub open spec fn bench_module(b: Bench) -> WasmModule {
    match b {
        Bench::RegexRedux => WasmModule::RegexRedux,
        Bench::Coremark => WasmModule::Coremark,
        Bench::Noop => WasmModule::Noop,
    }
}

/// The export of a benchmark's stand-alone module that runs it.
pub open spec fn bench_module_export(b: Bench) -> &'static str {
    match b {
        Bench::RegexRedux => "run_regexredux",
        Bench::Coremark => "run",
        Bench::Noop => "run_noop",
    }
}

/// How `bench` runs on `t`; `None` where the target has no build of it
/// (natively, only regex-redux exists).
pub open spec fn runner_spec(bench: Bench, t: Target) -> Option<Runner> {
    match t {
        Target::WasmiUnderWasmtime(wi, wt) => Some(
            Runner::Wasmtime {
                module: WasmModule::KernelWasmi(wi),
                wasmtime: wt,
                entry_point: kernel_wasmi_export(bench),
            },
        ),
        Target::Wasmtime(wt) => Some(
            Runner::Wasmtime {
                module: bench_module(bench),
                wasmtime: wt,
                entry_point: bench_module_export(bench),
            },
        ),
        Target::WasmiOnBareMetal(wi) => Some(Runner::Wasmi { wasmi: wi, bench }),
        Target::BareMetal => match bench {
            Bench::RegexRedux => Some(Runner::Native(Bench::RegexRedux)),
            _ => None,
        },
    }
}

/// How `bench` runs on `t`, if the target has a build of it.
pub fn runner(bench: Bench, t: Target) -> (r: Option<Runner>)
    ensures
        r == runner_spec(bench, t),
{
    match t {
        Target::WasmiUnderWasmtime(wi, wt) => {
            let entry_point = match bench {
                Bench::RegexRedux => "run_regexredux",
                Bench::Coremark => "run_coremark",
                Bench::Noop => "run_noop",
            };
            Some(Runner::Wasmtime { module: WasmModule::KernelWasmi(wi), wasmtime: wt, entry_point })
        },
        Target::Wasmtime(wt) => {
            let (module, entry_point) = match bench {
                Bench::RegexRedux => (WasmModule::RegexRedux, "run_regexredux"),
                Bench::Coremark => (WasmModule::Coremark, "run"),
                Bench::Noop => (WasmModule::Noop, "run_noop"),
            };
            Some(Runner::Wasmtime { module, wasmtime: wt, entry_point })
        },
        Target::WasmiOnBareMetal(wi) => Some(Runner::Wasmi { wasmi: wi, bench }),
        Target::BareMetal => match bench {
            Bench::RegexRedux => Some(Runner::Native(Bench::RegexRedux)),
            _ => None,
        },
    }
}

/// A runner uses the releases of its target: on a wasmtime target the
/// wasmtime release of the target (and, under wasmtime, the wasmi kernel of
/// the target's wasmi release); on wasmi, the target's wasmi release and the
/// benchmark asked for; natively, only regex-redux runs.
pub proof fn lemma_runner_uses_target_releases(b: Bench, t: Target)
    ensures
        t matches Target::Wasmtime(wt) ==> (runner_spec(b, t) matches Some(
            Runner::Wasmtime { wasmtime, module, .. },
        ) && wasmtime == wt && module == bench_module(b)),
        t matches Target::WasmiUnderWasmtime(wi, wt) ==> (runner_spec(b, t) matches Some(
            Runner::Wasmtime { wasmtime, module, .. },
        ) && wasmtime == wt && module == WasmModule::KernelWasmi(wi)),
        t matches Target::WasmiOnBareMetal(wi) ==> runner_spec(b, t) == Some(
            Runner::Wasmi { wasmi: wi, bench: b },
        ),
        t == Target::BareMetal ==> (runner_spec(b, t) is Some <==> b == Bench::RegexRedux),
        t == Target::BareMetal && b == Bench::RegexRedux ==> runner_spec(b, t) == Some(
            Runner::Native(Bench::RegexRedux),
        ),
{
}

/// The export a runner calls is `run_<bench>`, except CoreMark's own module,
/// whose export is `run`; each benchmark has its own module.
pub proof fn lemma_runner_exports(b: Bench, t: Target)
    ensures
        runner_spec(b, t) matches Some(Runner::Wasmtime { entry_point, module, .. }) ==> (
        entry_point@ == if module == WasmModule::Coremark {
            "run"@
        } else {
            "run_"@ + bench_label(b)
        }),
        bench_module(b) == WasmModule::Coremark <==> b == Bench::Coremark,
        bench_module(b) == WasmModule::RegexRedux <==> b == Bench::RegexRedux,
        bench_module(b) == WasmModule::Noop <==> b == Bench::Noop,
{
    reveal_strlit("run");
    reveal_strlit("run_");
    reveal_strlit("run_regexredux");
    reveal_strlit("run_coremark");
    reveal_strlit("run_noop");
    reveal_strlit("regexredux");
    reveal_strlit("coremark");
    reveal_strlit("noop");
    match runner_spec(b, t) {
        Some(Runner::Wasmtime { entry_point, module, .. }) => {
            match b {
                Bench::RegexRedux => {
                    assert("run_regexredux"@ =~= "run_"@ + "regexredux"@);
                },
                Bench::Coremark => {
                    assert("run_coremark"@ =~= "run_"@ + "coremark"@);
                },
                Bench::Noop => {
                    assert("run_noop"@ =~= "run_"@ + "noop"@);
                },
            }
        },
        _ => {},
    }
}

/// Which benchmarks a build was configured with.
#[derive(Clone, Copy, Debug, PartialEq, Eq, Structural)]
pub struct BenchSelection {
    pub regexredux: bool,
    pub coremark: bool,
    pub noop: bool,
}

pub open spec fn is_selected(sel: BenchSelection, b: Bench) -> bool {
    match b {
        Bench::RegexRedux => sel.regexredux,
        Bench::Coremark => sel.coremark,
        Bench::Noop => sel.noop,
    }
}

/// `b` alone if it is selected and the target can run it, else nothing.
pub open spec fn if_runnable(sel: BenchSelection, t: Target, b: Bench) -> Seq<Bench> {
    if is_selected(sel, b) && runner_spec(b, t) is Some {
        seq![b]
    } else {
        seq![]
    }
}

/// The benchmarks a run reports, in the order they are reported.
pub open spec fn benches_spec(sel: BenchSelection, t: Target) -> Seq<Bench> {
    if_runnable(sel, t, Bench::RegexRedux) + if_runnable(sel, t, Bench::Coremark) + if_runnable(
        sel,
        t,
        Bench::Noop,
    )
}

/// The benchmarks to run and report, in order: regex-redux, CoreMark, noop,
/// each where it is selected and the target has a build of it.
pub fn benches_to_run(sel: BenchSelection, t: Target) -> (r: Vec<Bench>)
    ensures
        r@ == benches_spec(sel, t),
{
    let mut r: Vec<Bench> = Vec::new();
    if sel.regexredux && runner(Bench::RegexRedux, t).is_some() {
        r.push(Bench::RegexRedux);
    }
    if sel.coremark && runner(Bench::Coremark, t).is_some() {
        r.push(Bench::Coremark);
    }
    if sel.noop && runner(Bench::Noop, t).is_some() {
        r.push(Bench::Noop);
    }
    proof {
        assert(r@ =~= benches_spec(sel, t));
    }
    r
}

/// A run reports a benchmark exactly when it is selected and the target can
/// run it; every target runs regex-redux, and running natively, nothing else.
pub proof fn lemma_reported_benches(sel: BenchSelection, t: Target, b: Bench)
    ensures
        benches_spec(sel, t).contains(b) <==> is_selected(sel, b) && (t != Target::BareMetal || b
            == Bench::RegexRedux),
{
    let s = benches_spec(sel, t);
    if is_selected(sel, b) && (t != Target::BareMetal || b == Bench::RegexRedux) {
        let i: int = match b {
            Bench::RegexRedux => 0,
            Bench::Coremark => if_runnable(sel, t, Bench::RegexRedux).len() as int,
            Bench::Noop => (if_runnable(sel, t, Bench::RegexRedux).len() + if_runnable(
                sel,
                t,
                Bench::Coremark,
            ).len()) as int,
        };
        assert(s[i] == b);
    }
    if s.contains(b) {
        let i = choose|i: int| 0 <= i < s.len() && s[i] == b;
        let a = if_runnable(sel, t, Bench::RegexRedux);
        let c = if_runnable(sel, t, Bench::Coremark);
        let n = if_runnable(sel, t, Bench::Noop);
        if i < a.len() {
            assert(s[i] == a[i]);
        } else if i < a.len() + c.len() {
            assert(s[i] == c[i - a.len()]);
        } else {
            assert(s[i] == n[i - a.len() - c.len()]);
        }
    }
}

pub open spec fn bench_label(b: Bench) -> Seq<char> {
    match b {
        Bench::RegexRedux => "regexredux"@,
        Bench::Coremark => "coremark"@,
        Bench::Noop => "noop"@,
    }
}

/// The start of a result line: `<bench>,<target>,`; the measured time follows.
pub fn report_prefix(b: Bench, t: Target) -> (s: String)
    ensures
        s@ == bench_label(b) + ","@ + target_label(t) + ","@,
{
    let mut s = String::from_str(
        match b {
            Bench::RegexRedux => "regexredux",
            Bench::Coremark => "coremark",
            Bench::Noop => "noop",
        },
    );
    s.append(",");
    let label = target(t);
    s.append(label.as_str());
    s.append(",");
    s
}

} // verus!
