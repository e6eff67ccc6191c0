use std::cell::Cell;
use wasm_bench::regexredux::{EXPECTED_TOTAL, ROUNDS};
use wasm_bench::{
    count_variants, regexredux_total, run_regexredux_impl, strip_headers, substitute, Pattern,
    RegexReduxError,
};

const ALU: &str = "GGCCGGGCGCGGTGGCTCACGCCTGTAATCCCAGCACTTTGG\
GAGGCCGAGGCGGGCGGATCACCTGAGGTCAGGAGTTCGAGA\
CCAGCCTGGCCAACATGGTGAAACCCCGTCTCTACTAAAAAT\
ACAAAAATTAGCCGGGCGTGGTGGCGCGCGCCTGTAATCCCA\
GCTACTCGGGAGGCTGAGGCAGGAGAATCGCTTGAACCCGGG\
AGGCGGAGGTTGCAGTGAGCCGAGATCGCGCCACTGCACTCC\
AGCCTGGGCGACAGAGCGAGACTCCGTCTCAAAAA";

/// The benchmark input: the output of the benchmarks-game `fasta` program
/// for n = 1000.
fn fasta_input(n: usize) -> Vec<u8> {
    let iub: [(u8, f64); 15] = [
        (b'a', 0.27),
        (b'c', 0.12),
        (b'g', 0.12),
        (b't', 0.27),
        (b'B', 0.02),
        (b'D', 0.02),
        (b'H', 0.02),
        (b'K', 0.02),
        (b'M', 0.02),
        (b'N', 0.02),
        (b'R', 0.02),
        (b'S', 0.02),
        (b'V', 0.02),
        (b'W', 0.02),
        (b'Y', 0.02),
    ];
    let homo: [(u8, f64); 4] = [
        (b'a', 0.3029549426680),
        (b'c', 0.1979883004921),
        (b'g', 0.1975473066391),
        (b't', 0.3015094502008),
    ];
    let mut out = Vec::new();
    let mut seed: u64 = 42;
    let push_lines = |out: &mut Vec<u8>, bytes: Vec<u8>| {
        for chunk in bytes.chunks(60) {
            out.extend_from_slice(chunk);
            out.push(b'\n');
        }
    };
    out.extend_from_slice(b">ONE Homo sapiens alu\n");
    let alu = ALU.as_bytes();
    let rep: Vec<u8> = (0..2 * n).map(|i| alu[i % alu.len()]).collect();
    push_lines(&mut out, rep);
    let mut random = |table: &[(u8, f64)], count: usize| -> Vec<u8> {
        let mut cumulative = Vec::new();
        let mut acc = 0.0f64;
        for (c, p) in table {
            acc += p;
            cumulative.push((*c, acc));
        }
        (0..count)
            .map(|_| {
                seed = (seed * 3877 + 29573) % 139968;
                let r = 1.0f64 * seed as f64 / 139968.0;
                cumulative.iter().find(|(_, c)| r < *c).map(|(ch, _)| *ch).unwrap_or(cumulative[cumulative.len() - 1].0)
            })
            .collect()
    };
    out.extend_from_slice(b">TWO IUB ambiguity codes\n");
    let iub_seq = random(&iub, 3 * n);
    push_lines(&mut out, iub_seq);
    out.extend_from_slice(b">THREE Homo sapiens frequency\n");
    let homo_seq = random(&homo, 5 * n);
    push_lines(&mut out, homo_seq);
    out
}

#[test]
fn fasta_input_has_expected_shape() {
    let input = fasta_input(1000);
    assert_eq!(input.len(), 10245);
}

#[test]
fn benchmark_input_gives_expected_total() {
    let input = fasta_input(1000);
    assert_eq!(regexredux_total(&input), Ok(5266));
    assert_eq!(EXPECTED_TOTAL, 5266);
}

#[test]
fn benchmark_input_steps() {
    let input = fasta_input(1000);
    let sequence = strip_headers(&input).unwrap();
    assert_eq!(sequence.len(), 10000);
    assert!(sequence.len() <= input.len());
    assert_eq!(substitute(&sequence).unwrap().len(), 5262);
    assert_eq!(count_variants(&sequence), Ok(4));
}

#[test]
fn timed_run_on_benchmark_input() {
    let input = fasta_input(1000);
    let readings = Cell::new(0u32);
    let clock = || {
        readings.set(readings.get() + 1);
        if readings.get() == 1 { 1000i64 } else { 1750i64 }
    };
    assert_eq!(run_regexredux_impl(clock, &input).unwrap(), 750);
    assert_eq!(readings.get(), 2);
    assert_eq!(ROUNDS, 10);
}

#[test]
fn timed_run_rejects_wrong_total() {
    let clock = || 0i64;
    match run_regexredux_impl(clock, b">x\nagggtaaa\n") {
        Err(RegexReduxError::WrongTotal(n)) => assert_eq!(n, 9),
        other => panic!("unexpected {:?}", other),
    }
}

#[test]
fn strip_removes_headers_and_line_breaks() {
    assert_eq!(strip_headers(b">head line\nacgt\nTT\n>two\nG").unwrap(), b"acgtTTG".to_vec());
    assert_eq!(strip_headers(b"acgt").unwrap(), b"acgt".to_vec());
    assert_eq!(strip_headers(b"").unwrap(), Vec::<u8>::new());
}

#[test]
fn substitutions_apply_in_turn() {
    // tHa[Nt] -> <4>, then <[^>]*> -> |, then \|[^|][^|]*\| -> -
    assert_eq!(substitute(b"xtHaNy").unwrap(), b"x|y".to_vec());
    assert_eq!(substitute(b"tHaNxtHat").unwrap(), b"-".to_vec());
    assert_eq!(substitute(b"tHaNtHat").unwrap(), b"||".to_vec());
    assert_eq!(substitute(b"acgt").unwrap(), b"acgt".to_vec());
}

#[test]
fn variants_are_counted_separately() {
    // agggtaaa matches the first variant; tttaccct (its reverse complement) too.
    assert_eq!(count_variants(b"agggtaaaxtttaccct"), Ok(2));
    // cgggtaaa matches the second variant only.
    assert_eq!(count_variants(b"cgggtaaa"), Ok(1));
    assert_eq!(count_variants(b""), Ok(0));
}

#[test]
fn small_total() {
    // stripped: agggtaaa (8 bytes, no substitution applies) + 1 variant match
    assert_eq!(regexredux_total(b">h\nagggtaaa\n"), Ok(9));
}

#[test]
fn invalid_pattern_is_reported() {
    let e = Pattern::new("foo(bar").unwrap_err();
    assert_eq!(e.pattern, "foo(bar");
    assert!(Pattern::new(r"\w{1000}").is_err());
}

#[test]
fn pattern_replace_and_count() {
    let p = Pattern::new("a[bc]").unwrap();
    assert_eq!(p.source(), "a[bc]");
    assert_eq!(p.replace_all(b"xabyacz", b"-"), b"x-y-z".to_vec());
    assert_eq!(p.replace_all(b"xyz", b"-"), b"xyz".to_vec());
    assert_eq!(p.count_matches(b"abacad"), 2);
    let groups = Pattern::new("(a)(b)").unwrap();
    assert_eq!(groups.replace_all(b"abab", b"$2$1"), b"baba".to_vec());
}
