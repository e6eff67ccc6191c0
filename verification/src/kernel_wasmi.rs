use vstd::prelude::*;

verus! {

/// The module from which the guest imports host functions.
pub const HOST_MODULE: &'static str = "env";

/// The name under which the guest imports the millisecond clock.
pub const CLOCK_MS_NAME: &'static str = "clock_ms";

/// The host-function index of the millisecond clock.
pub const CLOCK_MS_INDEX: usize = 0;

/// How many times the noop kernel is instantiated and run in one timed run.
pub const NOOP_RUNS: u32 = 10000;

/// What the host reports when the guest calls a host function it does not have.
#[derive(Clone, Copy, Debug, PartialEq, Eq, Structural)]
pub enum HostTrap {
    Unreachable,
}

/// The message for an import the host does not provide.
pub open spec fn missing_export_message(field_name: Seq<char>) -> Seq<char> {
    "Export "@ + field_name + " not found"@
}

/// The host index under which an import named `name` resolves, if the host
/// module provides it.
pub open spec fn resolved_index(name: Seq<char>) -> Option<usize> {
    if name == CLOCK_MS_NAME@ {
        Some(CLOCK_MS_INDEX)
    } else {
        None
    }
}

/// Whether the host answers a call of the host function with this index.
pub open spec fn answers(index: usize) -> bool {
    index == CLOCK_MS_INDEX
}

/// Every import the host resolves can be called without trapping.
pub proof fn lemma_resolved_imports_answer(name: Seq<char>)
    ensures
        resolved_index(name) matches Some(i) ==> answers(i),
{
}

/// Resolves a function that the guest imports from the host module: only
/// `clock_ms` exists, under host index `CLOCK_MS_INDEX`; any other name is
/// refused with the message `Export <name> not found`.
pub fn resolve_func(field_name: &str) -> (r: Result<usize, String>)
    ensures
        resolved_index(field_name@) matches Some(i) ==> r == Ok::<usize, String>(i),
        field_name@ == CLOCK_MS_NAME@ ==> r == Ok::<usize, String>(CLOCK_MS_INDEX),
        field_name@ != CLOCK_MS_NAME@ ==> (r matches Err(msg) && msg@ == missing_export_message(
            field_name@,
        )),
{
    let name = field_name.to_owned();
    let clock = String::from_str(CLOCK_MS_NAME);
    if name == clock {
        Ok(CLOCK_MS_INDEX)
    } else {
        let mut msg = String::from_str("Export ");
        msg.append(field_name);
        msg.append(" not found");
        Err(msg)
    }
}

/// Runs the host function with index `index` for the guest: index
/// `CLOCK_MS_INDEX` reads `clock_ms`; any other index traps.
pub fn invoke_index<F: Fn() -> i64>(clock_ms: &F, index: usize) -> (r: Result<i64, HostTrap>)
    requires
        index == CLOCK_MS_INDEX ==> clock_ms.requires(()),
    ensures
        r is Ok <==> answers(index),
        r matches Ok(ms) ==> clock_ms.ensures((), ms),
        r matches Err(t) ==> t == HostTrap::Unreachable,
{
    if index == CLOCK_MS_INDEX {
        Ok(clock_ms())
    } else {
        Err(HostTrap::Unreachable)
    }
}

/// Reads the clock, runs `run_once` `NOOP_RUNS` times, reads the clock again
/// and returns the difference of the two readings (wrapping around on
/// overflow).
pub fn run_noop_impl<C: Fn() -> i64, W: Fn()>(clock_ms: C, run_once: W) -> (ms: i64)
    requires
        clock_ms.requires(()),
        run_once.requires(()),
    ensures
        exists|t0: i64, t1: i64|
            clock_ms.ensures((), t0) && clock_ms.ensures((), t1) && ms == t1.wrapping_sub(t0),
{
    let timestamp = clock_ms();
    let mut done: u32 = 0;
    while done < NOOP_RUNS
        invariant
            done <= NOOP_RUNS,
            run_once.requires(()),
        decreases NOOP_RUNS - done,
    {
        run_once();
        done = done + 1;
    }
    let now = clock_ms();
    let elapsed = now.wrapping_sub(timestamp);
    proof {
        assert(clock_ms.ensures((), timestamp) && clock_ms.ensures((), now) && elapsed
            == now.wrapping_sub(timestamp));
    }
    elapsed
}

} // verus!
