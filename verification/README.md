# wasm_bench

A small benchmark of WebAssembly runtimes (wasmtime and the wasmi
interpreter, or native code) on three kernels: regex-redux, CoreMark and a
kernel that does nothing.

- `src/` is the verified library (Verus):
  - `bench.rs`: targets and their labels, which runner executes which
    benchmark on which target, which benchmarks a run reports;
  - `clock.rs`: the millisecond clock handed to the kernels;
  - `pattern.rs`: byte regular expressions (the `regex` crate) with their
    contracts;
  - `regexredux.rs`: the regex-redux kernel and its timed run;
  - `kernel_wasmi.rs`: the host functions offered to a guest under wasmi and
    the timed noop run.
- `app/` is the driver: loading modules, running them under wasmtime or
  wasmi, and printing results (all values that are floats stay there).
- `tests/` exercises the library, including the regex-redux figure for the
  benchmark input (generated by the benchmarks-game `fasta` algorithm).
