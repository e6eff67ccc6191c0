use vstd::prelude::*;
use vstd::utf8::encode_utf8;

use crate::syntax::{
    alt_accepts, alt_well_formed, any_but, any_but_repeated, branch_accepts, denotes, lemma_small_branch,
    lemma_until, lit, one_of, render_alt, render_branch,
};
use crate::pattern::{
    ordered_spans, regex_compiles, regex_matches, regex_replaced, splice, InvalidPattern, Pattern,
};

verus! {

/// Header lines (`>` up to the end of the line) and line breaks.
pub open spec fn header_pattern() -> Seq<char> {
    ">[^\n]*\n|\n"@
}

/// The substitutions applied in turn, as (pattern, replacement).
pub open spec fn substitution_patterns() -> Seq<(Seq<char>, Seq<char>)> {
    seq![
        ("tHa[Nt]"@, "<4>"@),
        ("aND|caN|Ha[DS]|WaS"@, "<3>"@),
        ("a[NSt]|BY"@, "<2>"@),
        ("<[^>]*>"@, "|"@),
        ("\\|[^|][^|]*\\|"@, "-"@),
    ]
}

/// The DNA 8-mer variants (and their reverse complements) that are counted.
pub open spec fn variant_patterns() -> Seq<Seq<char>> {
    seq![
        "agggtaaa|tttaccct"@,
        "[cgt]gggtaaa|tttaccc[acg]"@,
        "a[act]ggtaaa|tttacc[agt]t"@,
        "ag[act]gtaaa|tttac[agt]ct"@,
        "agg[act]taaa|ttta[agt]cct"@,
        "aggg[acg]aaa|ttt[cgt]ccct"@,
        "agggt[cgt]aa|tt[acg]accct"@,
        "agggta[cgt]a|t[acg]taccct"@,
        "agggtaa[cgt]|[acg]ttaccct"@,
    ]
}

/// The strings the second substitution replaces.
pub open spec fn third_codes(s: Seq<char>) -> bool {
    s == "aND"@ || s == "caN"@ || s == "HaD"@ || s == "HaS"@ || s == "WaS"@
}

/// The second substitution replaces each of aND, caN, HaD, HaS and WaS by `<3>`.
pub proof fn lemma_second_substitution()
    ensures
        denotes(substitution_patterns()[1].0, |s: Seq<char>| third_codes(s)),
        substitution_patterns()[1].1 == "<3>"@,
{
    reveal_strlit("aND|caN|Ha[DS]|WaS");
    reveal_strlit("aND");
    reveal_strlit("caN");
    reveal_strlit("HaD");
    reveal_strlit("HaS");
    reveal_strlit("WaS");
    let bs = seq![
        seq![lit('a'), lit('N'), lit('D')],
        seq![lit('c'), lit('a'), lit('N')],
        seq![lit('H'), lit('a'), one_of(seq!['D', 'S'])],
        seq![lit('W'), lit('a'), lit('S')],
    ];
    reveal_with_fuel(render_alt, 5);
    reveal_with_fuel(render_branch, 4);
    assert(render_alt(bs) =~= substitution_patterns()[1].0);
    assert forall|s: Seq<char>| alt_accepts(bs, s) == third_codes(s) by {
        lemma_small_branch(bs[0], s);
        lemma_small_branch(bs[1], s);
        lemma_small_branch(bs[2], s);
        lemma_small_branch(bs[3], s);
        if third_codes(s) {
            if s == "aND"@ {
                assert(branch_accepts(bs[0], s));
            } else if s == "caN"@ {
                assert(branch_accepts(bs[1], s));
            } else if s == "HaD"@ || s == "HaS"@ {
                assert(branch_accepts(bs[2], s));
            } else {
                assert(branch_accepts(bs[3], s));
            }
        }
        if alt_accepts(bs, s) {
            let j = choose|j: int| 0 <= j < bs.len() && branch_accepts(#[trigger] bs[j], s);
            if j == 0 {
                assert(s =~= "aND"@);
            } else if j == 1 {
                assert(s =~= "caN"@);
            } else if j == 2 {
                if s[2] == 'D' {
                    assert(s =~= "HaD"@);
                } else {
                    assert(s =~= "HaS"@);
                }
            } else {
                assert(s =~= "WaS"@);
            }
        }
    }
    assert(alt_well_formed(bs));
}

/// The strings the first substitution replaces.
pub open spec fn fourth_codes(s: Seq<char>) -> bool {
    s == "tHaN"@ || s == "tHat"@
}

/// The first substitution replaces each of tHaN and tHat by `<4>`.
pub proof fn lemma_first_substitution()
    ensures
        denotes(substitution_patterns()[0].0, |s: Seq<char>| fourth_codes(s)),
        substitution_patterns()[0].1 == "<4>"@,
{
    reveal_strlit("tHa[Nt]");
    reveal_strlit("tHaN");
    reveal_strlit("tHat");
    let bs = seq![seq![lit('t'), lit('H'), lit('a'), one_of(seq!['N', 't'])]];
    reveal_with_fuel(render_alt, 2);
    reveal_with_fuel(render_branch, 5);
    assert(render_alt(bs) =~= substitution_patterns()[0].0);
    assert forall|s: Seq<char>| alt_accepts(bs, s) == fourth_codes(s) by {
        lemma_small_branch(bs[0], s);
        if fourth_codes(s) {
            assert(branch_accepts(bs[0], s));
        }
        if alt_accepts(bs, s) {
            let j = choose|j: int| 0 <= j < bs.len() && branch_accepts(#[trigger] bs[j], s);
            if s[3] == 'N' {
                assert(s =~= "tHaN"@);
            } else {
                assert(s =~= "tHat"@);
            }
        }
    }
    assert(alt_well_formed(bs));
}

/// The strings the third substitution replaces.
pub open spec fn second_codes(s: Seq<char>) -> bool {
    s == "aN"@ || s == "aS"@ || s == "at"@ || s == "BY"@
}

/// The third substitution replaces each of aN, aS, at and BY by `<2>`.
pub proof fn lemma_third_substitution()
    ensures
        denotes(substitution_patterns()[2].0, |s: Seq<char>| second_codes(s)),
        substitution_patterns()[2].1 == "<2>"@,
{
    reveal_strlit("a[NSt]|BY");
    reveal_strlit("aN");
    reveal_strlit("aS");
    reveal_strlit("at");
    reveal_strlit("BY");
    let bs = seq![seq![lit('a'), one_of(seq!['N', 'S', 't'])], seq![lit('B'), lit('Y')]];
    reveal_with_fuel(render_alt, 3);
    reveal_with_fuel(render_branch, 3);
    assert(render_alt(bs) =~= substitution_patterns()[2].0);
    assert forall|s: Seq<char>| alt_accepts(bs, s) == second_codes(s) by {
        lemma_small_branch(bs[0], s);
        lemma_small_branch(bs[1], s);
        if second_codes(s) {
            if s == "BY"@ {
                assert(branch_accepts(bs[1], s));
            } else {
                assert(branch_accepts(bs[0], s));
            }
        }
        if alt_accepts(bs, s) {
            let j = choose|j: int| 0 <= j < bs.len() && branch_accepts(#[trigger] bs[j], s);
            if j == 0 {
                if s[1] == 'N' {
                    assert(s =~= "aN"@);
                } else if s[1] == 'S' {
                    assert(s =~= "aS"@);
                } else {
                    assert(s =~= "at"@);
                }
            } else {
                assert(s =~= "BY"@);
            }
        }
    }
    assert(alt_well_formed(bs));
}

/// `s` opens with `open`, closes with `close`, is at least `min` long and
/// holds no `close` in between.
pub open spec fn delimited(s: Seq<char>, open: char, close: char, min: int) -> bool {
    &&& s.len() >= min
    &&& s[0] == open
    &&& s.last() == close
    &&& forall|i: int| 0 < i < s.len() - 1 ==> s[i] != close
}

/// The fourth substitution replaces each `<...>` (with no `>` inside) by `|`.
pub proof fn lemma_fourth_substitution()
    ensures
        denotes(substitution_patterns()[3].0, |s: Seq<char>| delimited(s, '<', '>', 2)),
        substitution_patterns()[3].1 == "|"@,
{
    reveal_strlit("<[^>]*>");
    let b = seq![lit('<'), any_but_repeated('>'), lit('>')];
    let bs = seq![b];
    reveal_with_fuel(render_alt, 2);
    reveal_with_fuel(render_branch, 4);
    assert(render_alt(bs) =~= substitution_patterns()[3].0);
    assert(b.drop_first() =~= seq![any_but_repeated('>'), lit('>')]);
    assert(seq!['<'].contains('<')) by {
        assert(seq!['<'][0] == '<');
    }
    assert forall|s: Seq<char>| alt_accepts(bs, s) == delimited(s, '<', '>', 2) by {
        if s.len() > 0 {
            lemma_until('>', s.drop_first());
            assert(seq!['<'].contains(s[0]) <==> s[0] == '<');
            if delimited(s, '<', '>', 2) {
                assert forall|i: int| 0 <= i < s.drop_first().len() - 1 implies s.drop_first()[i] != '>' by {
                    assert(s[i + 1] != '>');
                }
                assert(branch_accepts(bs[0], s));
            }
            if alt_accepts(bs, s) {
                let j = choose|j: int| 0 <= j < bs.len() && branch_accepts(#[trigger] bs[j], s);
                assert forall|i: int| 0 < i < s.len() - 1 implies s[i] != '>' by {
                    assert(s.drop_first()[i - 1] != '>');
                }
            }
        } else {
            assert(!branch_accepts(bs[0], s));
        }
    }
    assert(alt_well_formed(bs));
}

/// The fifth substitution replaces each `|...|` with at least one character
/// and no `|` inside by `-`.
pub proof fn lemma_fifth_substitution()
    ensures
        denotes(substitution_patterns()[4].0, |s: Seq<char>| delimited(s, '|', '|', 3)),
        substitution_patterns()[4].1 == "-"@,
{
    reveal_strlit("\\|[^|][^|]*\\|");
    let b = seq![lit('|'), any_but('|'), any_but_repeated('|'), lit('|')];
    let bs = seq![b];
    reveal_with_fuel(render_alt, 2);
    reveal_with_fuel(render_branch, 5);
    assert(render_alt(bs) =~= substitution_patterns()[4].0);
    assert(b.drop_first().drop_first() =~= seq![any_but_repeated('|'), lit('|')]);
    assert(seq!['|'].contains('|')) by {
        assert(seq!['|'][0] == '|');
    }
    assert forall|s: Seq<char>| alt_accepts(bs, s) == delimited(s, '|', '|', 3) by {
        if s.len() > 1 {
            let rest = s.drop_first().drop_first();
            lemma_until('|', rest);
            assert(seq!['|'].contains(s[0]) <==> s[0] == '|');
            assert(seq!['|'].contains(s[1]) <==> s[1] == '|');
            assert(s.drop_first()[0] == s[1]);
            if delimited(s, '|', '|', 3) {
                assert forall|i: int| 0 <= i < rest.len() - 1 implies rest[i] != '|' by {
                    assert(s[i + 2] != '|');
                }
                assert(s[1] != '|');
                assert(branch_accepts(b.drop_first(), s.drop_first()));
                assert(branch_accepts(bs[0], s));
            }
            if alt_accepts(bs, s) {
                let j = choose|j: int| 0 <= j < bs.len() && branch_accepts(#[trigger] bs[j], s);
                assert(branch_accepts(b.drop_first(), s.drop_first()));
                assert forall|i: int| 0 < i < s.len() - 1 implies s[i] != '|' by {
                    if i > 1 {
                        assert(rest[i - 2] != '|');
                    }
                }
            }
        } else if s.len() == 1 {
            assert(!branch_accepts(b.drop_first(), s.drop_first()));
            assert(!branch_accepts(bs[0], s));
        } else {
            assert(!branch_accepts(bs[0], s));
        }
    }
    assert(alt_well_formed(bs));
}

/// The header pattern matches exactly a line break, or a header line: `>`
/// up to and including the next line break.
pub proof fn lemma_header_pattern()
    ensures
        denotes(header_pattern(), |s: Seq<char>| s == seq!['\n'] || delimited(s, '>', '\n', 2)),
{
    reveal_strlit(">[^\n]*\n|\n");
    let b = seq![lit('>'), any_but_repeated('\n'), lit('\n')];
    let bs = seq![b, seq![lit('\n')]];
    reveal_with_fuel(render_alt, 3);
    reveal_with_fuel(render_branch, 4);
    assert(render_alt(bs) =~= header_pattern());
    assert(b.drop_first() =~= seq![any_but_repeated('\n'), lit('\n')]);
    assert(seq!['>'].contains('>')) by {
        assert(seq!['>'][0] == '>');
    }
    assert forall|s: Seq<char>| alt_accepts(bs, s) == (s == seq!['\n'] || delimited(s, '>', '\n', 2)) by {
        lemma_small_branch(bs[1], s);
        if s.len() > 0 {
            lemma_until('\n', s.drop_first());
            assert(seq!['>'].contains(s[0]) <==> s[0] == '>');
            if delimited(s, '>', '\n', 2) {
                assert forall|i: int| 0 <= i < s.drop_first().len() - 1 implies s.drop_first()[i] != '\n' by {
                    assert(s[i + 1] != '\n');
                }
                assert(branch_accepts(bs[0], s));
            }
            if s == seq!['\n'] {
                assert(branch_accepts(bs[1], s));
            }
            if alt_accepts(bs, s) {
                let j = choose|j: int| 0 <= j < bs.len() && branch_accepts(#[trigger] bs[j], s);
                if j == 0 {
                    assert forall|i: int| 0 < i < s.len() - 1 implies s[i] != '\n' by {
                        assert(s.drop_first()[i - 1] != '\n');
                    }
                } else {
                    assert(s =~= seq!['\n']);
                }
            }
        } else {
            assert(!branch_accepts(bs[0], s));
        }
    }
    assert(alt_well_formed(bs));
}

/// There are exactly five substitutions (the ones stated above).
pub proof fn lemma_five_substitutions()
    ensures
        substitution_patterns().len() == 5,
{
}

/// Substituting with a list in two parts is substituting with the first
/// part, then with the second; one substitution is one regex replacement.
pub proof fn lemma_substituted_in_turn(
    buf: Seq<u8>,
    a: Seq<(Seq<char>, Seq<char>)>,
    b: Seq<(Seq<char>, Seq<char>)>,
)
    ensures
        substituted(buf, a + b) == substituted(substituted(buf, a), b),
        a.len() == 1 ==> substituted(buf, a) == regex_replaced(a[0].0, buf, encode_utf8(a[0].1)),
    decreases b.len(),
{
    if a.len() == 1 {
        assert(a.drop_last() =~= Seq::<(Seq<char>, Seq<char>)>::empty());
        assert(substituted(buf, a.drop_last()) == buf);
        assert(a.last() == a[0]);
    }
    if b.len() == 0 {
        assert(a + b =~= a);
    } else {
        lemma_substituted_in_turn(buf, a, b.drop_last());
        assert((a + b).drop_last() =~= a + b.drop_last());
        assert((a + b).last() == b.last());
    }
}

/// Counting matches of a list of patterns in two parts adds the counts of
/// the parts; the count of one pattern is the number of its matches.
pub proof fn lemma_match_total_adds(hay: Seq<u8>, a: Seq<Seq<char>>, b: Seq<Seq<char>>)
    ensures
        match_total(hay, a + b) == match_total(hay, a) + match_total(hay, b),
        a.len() == 1 ==> match_total(hay, a) == regex_matches(a[0], hay).len(),
    decreases b.len(),
{
    if a.len() == 1 {
        assert(a.drop_last() =~= Seq::<Seq<char>>::empty());
        assert(match_total(hay, a.drop_last()) == 0);
        assert(a.last() == a[0]);
    }
    if b.len() == 0 {
        assert(a + b =~= a);
    } else {
        lemma_match_total_adds(hay, a, b.drop_last());
        assert((a + b).drop_last() =~= a + b.drop_last());
        assert((a + b).last() == b.last());
    }
}

/// The 8-mer whose variants are counted.
pub open spec fn kmer() -> Seq<char> {
    "agggtaaa"@
}

/// The complementary DNA base.
pub open spec fn complement(c: char) -> char {
    if c == 'a' {
        't'
    } else if c == 't' {
        'a'
    } else if c == 'c' {
        'g'
    } else {
        'c'
    }
}

/// The reverse complement of a DNA sequence.
pub open spec fn reverse_complement(s: Seq<char>) -> Seq<char> {
    Seq::new(s.len(), |i: int| complement(s[s.len() - 1 - i]))
}

/// The bases other than `c`, in alphabetical order.
pub open spec fn other_bases(c: char) -> Seq<char> {
    let bases = "acgt"@;
    if c == 'a' {
        bases.remove(0)
    } else if c == 'c' {
        bases.remove(1)
    } else if c == 'g' {
        bases.remove(2)
    } else {
        bases.remove(3)
    }
}

/// `s` with position `k` opened up to the bases other than the one there,
/// as a regex character class.
pub open spec fn vary_at(s: Seq<char>, k: int) -> Seq<char> {
    s.take(k) + "["@ + other_bases(s[k]) + "]"@ + s.skip(k + 1)
}

/// The variant pattern that opens up position `k` of the 8-mer: the 8-mer
/// with that base varied, or its reverse complement with the mirrored base
/// varied.
pub open spec fn one_base_variant(k: int) -> Seq<char> {
    vary_at(kmer(), k) + "|"@ + vary_at(reverse_complement(kmer()), 7 - k)
}

/// The counted variants are the 8-mer agggtaaa or its reverse complement,
/// and, for each of its eight positions, the 8-mer (or its reverse
/// complement) with exactly that base replaced by any other base.
pub proof fn lemma_variants_are_one_base_variants()
    ensures
        variant_patterns().len() == 9,
        variant_patterns()[0] == kmer() + "|"@ + reverse_complement(kmer()),
        forall|k: int| 0 <= k < 8 ==> #[trigger] variant_patterns()[k + 1] == one_base_variant(k),
{
    reveal_strlit("agggtaaa");
    reveal_strlit("acgt");
    reveal_strlit("[");
    reveal_strlit("]");
    reveal_strlit("|");
    reveal_strlit("agggtaaa|tttaccct");
    reveal_strlit("[cgt]gggtaaa|tttaccc[acg]");
    reveal_strlit("a[act]ggtaaa|tttacc[agt]t");
    reveal_strlit("ag[act]gtaaa|tttac[agt]ct");
    reveal_strlit("agg[act]taaa|ttta[agt]cct");
    reveal_strlit("aggg[acg]aaa|ttt[cgt]ccct");
    reveal_strlit("agggt[cgt]aa|tt[acg]accct");
    reveal_strlit("agggta[cgt]a|t[acg]taccct");
    reveal_strlit("agggtaa[cgt]|[acg]ttaccct");
    reveal_strlit("tttaccct");
    let rc = reverse_complement(kmer());
    assert(rc =~= "tttaccct"@);
    assert(variant_patterns()[0] =~= kmer() + "|"@ + rc);
    assert(variant_patterns()[1] =~= one_base_variant(0));
    assert(variant_patterns()[2] =~= one_base_variant(1));
    assert(variant_patterns()[3] =~= one_base_variant(2));
    assert(variant_patterns()[4] =~= one_base_variant(3));
    assert(variant_patterns()[5] =~= one_base_variant(4));
    assert(variant_patterns()[6] =~= one_base_variant(5));
    assert(variant_patterns()[7] =~= one_base_variant(6));
    assert(variant_patterns()[8] =~= one_base_variant(7));
    assert forall|k: int| 0 <= k < 8 implies #[trigger] variant_patterns()[k + 1] == one_base_variant(k) by {
        if k == 0 {} else if k == 1 {} else if k == 2 {} else if k == 3 {} else if k == 4 {} else if k == 5 {} else if k == 6 {} else {}
    }
}

/// Every pattern, in the order in which they are compiled.
pub open spec fn all_patterns() -> Seq<Seq<char>> {
    seq![header_pattern()] + substitution_patterns().map_values(|s: (Seq<char>, Seq<char>)| s.0)
        + variant_patterns()
}

/// Every pattern of `pats` is accepted by `regex`.
pub open spec fn all_compile(pats: Seq<Seq<char>>) -> bool {
    forall|i: int| 0 <= i < pats.len() ==> #[trigger] regex_compiles(pats[i])
}

/// `p` is the first pattern of `pats` that `regex` does not accept.
pub open spec fn first_invalid_is(pats: Seq<Seq<char>>, p: Seq<char>) -> bool {
    exists|i: int|
        0 <= i < pats.len() && #[trigger] pats[i] == p && !regex_compiles(p) && all_compile(
            pats.take(i),
        )
}

/// The input with header lines and line breaks removed.
pub open spec fn stripped(input: Seq<u8>) -> Seq<u8> {
    splice(input, regex_matches(header_pattern(), input), Seq::empty())
}

/// `buf` after the substitutions of `subs`, first to last.
pub open spec fn substituted(buf: Seq<u8>, subs: Seq<(Seq<char>, Seq<char>)>) -> Seq<u8>
    decreases subs.len(),
{
    if subs.len() == 0 {
        buf
    } else {
        regex_replaced(
            subs.last().0,
            substituted(buf, subs.drop_last()),
            encode_utf8(subs.last().1),
        )
    }
}

/// The number of matches of all of `pats` in `hay`, each counted on its own.
pub open spec fn match_total(hay: Seq<u8>, pats: Seq<Seq<char>>) -> int
    decreases pats.len(),
{
    if pats.len() == 0 {
        0
    } else {
        match_total(hay, pats.drop_last()) + regex_matches(pats.last(), hay).len()
    }
}

/// The figure regex-redux computes for an input: the length of the stripped
/// sequence after all substitutions, plus the number of variant matches in
/// the stripped sequence.
pub open spec fn regexredux_figure(input: Seq<u8>) -> int {
    substituted(stripped(input), substitution_patterns()).len() + match_total(
        stripped(input),
        variant_patterns(),
    )
}

/// The figure is the length of the stripped input after the substitutions,
/// plus the variant matches counted in the stripped input (not in the raw
/// input): both terms see the input only with headers and line breaks removed.
pub proof fn lemma_figure_of_stripped(input: Seq<u8>)
    ensures
        regexredux_figure(input) == substituted(stripped(input), substitution_patterns()).len()
            + match_total(stripped(input), variant_patterns()),
{
}

/// Two inputs that differ only in header lines and line breaks (so that
/// they strip to the same sequence) have the same figure.
pub proof fn lemma_figure_ignores_layout(a: Seq<u8>, b: Seq<u8>)
    requires
        stripped(a) == stripped(b),
    ensures
        regexredux_figure(a) == regexredux_figure(b),
{
}

/// The figure the benchmark input must give.
pub const EXPECTED_TOTAL: u128 = 5266;

/// How many times a timed run computes the figure.
pub const ROUNDS: u32 = 10;

/// Without a capture reference, removing spans never lengthens the haystack.
proof fn lemma_splice_empty_shrinks(h: Seq<u8>, spans: Seq<(usize, usize)>)
    requires
        ordered_spans(spans, h.len() as int),
    ensures
        splice(h, spans, Seq::empty()).len() <= h.len(),
    decreases spans.len(),
{
    if spans.len() > 0 {
        let last = spans.last();
        let front = spans.drop_last();
        assert forall|i: int| 0 <= i < front.len() implies #[trigger] front[i].0 <= front[i].1
            <= last.0 by {
            assert(spans[i].1 <= spans[spans.len() - 1].0);
        }
        assert forall|i: int, j: int| 0 <= i < j < front.len() implies #[trigger] front[i].1
            <= #[trigger] front[j].0 by {
            assert(spans[i].1 <= spans[j].0);
        }
        lemma_splice_empty_shrinks(h.subrange(0, last.0 as int), front);
    }
}

/// Removes header lines and line breaks from `input`. The result is never
/// longer than the input.
pub fn strip_headers(input: &[u8]) -> (r: Result<Vec<u8>, InvalidPattern>)
    ensures
        r is Ok <==> regex_compiles(header_pattern()),
        r matches Ok(s) ==> s@ == stripped(input@) && s@.len() <= input@.len(),
        r matches Err(e) ==> e.pattern@ == header_pattern(),
{
    let header = match Pattern::new(">[^\n]*\n|\n") {
        Ok(p) => p,
        Err(e) => return Err(e),
    };
    let nothing: Vec<u8> = Vec::new();
    proof {
        assert(!nothing@.contains(crate::pattern::dollar()));
    }
    let s = header.replace_all(input, nothing.as_slice());
    proof {
        assert(nothing@ =~= Seq::<u8>::empty());
        lemma_splice_empty_shrinks(input@, crate::pattern::regex_matches(header@, input@));
    }
    Ok(s)
}

/// The substitutions, as (pattern, replacement), in the order they apply.
fn substitutions() -> (v: Vec<(&'static str, &'static str)>)
    ensures
        v@.len() == substitution_patterns().len(),
        forall|i: int|
            0 <= i < v@.len() ==> (#[trigger] v@[i]).0@ == substitution_patterns()[i].0 && v@[i].1@
                == substitution_patterns()[i].1,
{
    let mut v: Vec<(&'static str, &'static str)> = Vec::new();
    v.push(("tHa[Nt]", "<4>"));
    v.push(("aND|caN|Ha[DS]|WaS", "<3>"));
    v.push(("a[NSt]|BY", "<2>"));
    v.push(("<[^>]*>", "|"));
    v.push(("\\|[^|][^|]*\\|", "-"));
    v
}

/// The variant patterns, in the order they are counted.
fn variants() -> (v: Vec<&'static str>)
    ensures
        v@.len() == variant_patterns().len(),
        forall|i: int| 0 <= i < v@.len() ==> (#[trigger] v@[i])@ == variant_patterns()[i],
{
    let mut v: Vec<&'static str> = Vec::new();
    v.push("agggtaaa|tttaccct");
    v.push("[cgt]gggtaaa|tttaccc[acg]");
    v.push("a[act]ggtaaa|tttacc[agt]t");
    v.push("ag[act]gtaaa|tttac[agt]ct");
    v.push("agg[act]taaa|ttta[agt]cct");
    v.push("aggg[acg]aaa|ttt[cgt]ccct");
    v.push("agggt[cgt]aa|tt[acg]accct");
    v.push("agggta[cgt]a|t[acg]taccct");
    v.push("agggtaa[cgt]|[acg]ttaccct");
    v
}

pub open spec fn substitution_sources() -> Seq<Seq<char>> {
    substitution_patterns().map_values(|s: (Seq<char>, Seq<char>)| s.0)
}

/// Applies the substitutions to `sequence`, each to the result of the one
/// before. Fails at the first substitution pattern that `regex` does not
/// accept.
pub fn substitute(sequence: &[u8]) -> (r: Result<Vec<u8>, InvalidPattern>)
    ensures
        r is Ok <==> all_compile(substitution_sources()),
        r matches Ok(s) ==> s@ == substituted(sequence@, substitution_patterns()),
        r matches Err(e) ==> first_invalid_is(substitution_sources(), e.pattern@),
{
    let subs = substitutions();
    let mut buffer = vstd::slice::slice_to_vec(sequence);
    let n = subs.len();
    for i in 0..n
        invariant
            n == subs@.len(),
            n == substitution_patterns().len(),
            forall|k: int|
                0 <= k < subs@.len() ==> (#[trigger] subs@[k]).0@ == substitution_patterns()[k].0
                    && subs@[k].1@ == substitution_patterns()[k].1,
            buffer@ == substituted(sequence@, substitution_patterns().take(i as int)),
            all_compile(substitution_sources().take(i as int)),
    {
        let (source, replacement) = subs[i];
        proof {
            assert(substitution_sources()[i as int] == source@);
        }
        let p = match Pattern::new(source) {
            Ok(p) => p,
            Err(e) => {
                proof {
                    assert(substitution_sources()[i as int] == e.pattern@);
                }
                return Err(e);
            },
        };
        buffer = p.replace_all(buffer.as_slice(), replacement.as_bytes());
        proof {
            let pre = substitution_patterns().take(i + 1);
            assert(pre.drop_last() =~= substitution_patterns().take(i as int));
            assert(pre.last() == substitution_patterns()[i as int]);
            assert(substitution_sources().take(i + 1) =~= substitution_sources().take(i as int).push(
                source@,
            ));
        }
    }
    proof {
        assert(substitution_patterns().take(n as int) =~= substitution_patterns());
        assert(substitution_sources().take(n as int) =~= substitution_sources());
    }
    Ok(buffer)
}

/// Counts the matches of every variant pattern in `sequence`, each on its
/// own, and sums the counts. Fails at the first variant pattern that `regex`
/// does not accept.
pub fn count_variants(sequence: &[u8]) -> (r: Result<u128, InvalidPattern>)
    ensures
        r is Ok <==> all_compile(variant_patterns()),
        r matches Ok(n) ==> n == match_total(sequence@, variant_patterns()) && n <= 9
            * 0x1_0000_0000_0000_0000,
        r matches Err(e) ==> first_invalid_is(variant_patterns(), e.pattern@),
{
    let vs = variants();
    let n = vs.len();
    let mut total: u128 = 0;
    for i in 0..n
        invariant
            n == vs@.len(),
            n == variant_patterns().len(),
            forall|k: int| 0 <= k < vs@.len() ==> (#[trigger] vs@[k])@ == variant_patterns()[k],
            total == match_total(sequence@, variant_patterns().take(i as int)),
            total <= i * 0x1_0000_0000_0000_0000,
            all_compile(variant_patterns().take(i as int)),
    {
        let source = vs[i];
        let p = match Pattern::new(source) {
            Ok(p) => p,
            Err(e) => {
                proof {
                    assert(variant_patterns()[i as int] == e.pattern@);
                }
                return Err(e);
            },
        };
        let count = p.count_matches(sequence);
        total = total + count as u128;
        proof {
            let pre = variant_patterns().take(i + 1);
            assert(pre.drop_last() =~= variant_patterns().take(i as int));
            assert(pre.last() == variant_patterns()[i as int]);
            assert(pre =~= variant_patterns().take(i as int).push(source@));
        }
    }
    proof {
        assert(variant_patterns().take(n as int) =~= variant_patterns());
    }
    Ok(total)
}

/// Compiling a list of patterns in two parts fails where the first failing
/// part fails.
proof fn lemma_compile_concat(a: Seq<Seq<char>>, b: Seq<Seq<char>>)
    ensures
        all_compile(a + b) <==> all_compile(a) && all_compile(b),
        forall|p: Seq<char>| #[trigger] first_invalid_is(a, p) ==> first_invalid_is(a + b, p),
        forall|p: Seq<char>|
            all_compile(a) && #[trigger] first_invalid_is(b, p) ==> first_invalid_is(a + b, p),
{
    let ab = a + b;
    if all_compile(a) && all_compile(b) {
        assert forall|i: int| 0 <= i < ab.len() implies #[trigger] regex_compiles(ab[i]) by {
            if i < a.len() {
                assert(regex_compiles(a[i]));
            } else {
                assert(regex_compiles(b[i - a.len()]));
            }
        }
    }
    if all_compile(ab) {
        assert forall|i: int| 0 <= i < a.len() implies #[trigger] regex_compiles(a[i]) by {
            assert(ab[i] == a[i]);
        }
        assert forall|i: int| 0 <= i < b.len() implies #[trigger] regex_compiles(b[i]) by {
            assert(ab[a.len() + i] == b[i]);
        }
    }
    assert forall|p: Seq<char>| #[trigger] first_invalid_is(a, p) implies first_invalid_is(ab, p) by {
        let i = choose|i: int|
            0 <= i < a.len() && #[trigger] a[i] == p && !regex_compiles(p) && all_compile(a.take(i));
        assert(ab[i] == a[i]);
        assert(ab.take(i) =~= a.take(i));
    }
    assert forall|p: Seq<char>| all_compile(a) && #[trigger] first_invalid_is(b, p) implies first_invalid_is(ab, p) by {
        let i = choose|i: int|
            0 <= i < b.len() && #[trigger] b[i] == p && !regex_compiles(p) && all_compile(b.take(i));
        assert(ab[a.len() + i] == b[i]);
        assert(ab.take(a.len() + i) =~= a + b.take(i));
        assert forall|k: int| 0 <= k < a.len() + i implies #[trigger] regex_compiles(ab.take(a.len() + i)[k]) by {
            if k < a.len() {
                assert(regex_compiles(a[k]));
            } else {
                assert(regex_compiles(b.take(i)[k - a.len()]));
            }
        }
    }
}

/// The regex-redux figure of `input`: strip header lines and line breaks,
/// apply the substitutions and take the length, then add the number of
/// variant matches in the stripped sequence. Fails at the first pattern
/// (header, substitutions, variants, in that order) that `regex` does not
/// accept.
pub fn regexredux_total(input: &[u8]) -> (r: Result<u128, InvalidPattern>)
    ensures
        r is Ok <==> all_compile(all_patterns()),
        r matches Ok(n) ==> n == regexredux_figure(input@),
        r matches Ok(n) ==> n == substituted(stripped(input@), substitution_patterns()).len()
            + match_total(stripped(input@), variant_patterns()),
        r matches Err(e) ==> first_invalid_is(all_patterns(), e.pattern@),
{
    let ghost head = seq![header_pattern()];
    proof {
        lemma_compile_concat(head, substitution_sources());
        lemma_compile_concat(head + substitution_sources(), variant_patterns());
        assert(all_patterns() =~= head + substitution_sources() + variant_patterns());
        assert(all_compile(head) <==> regex_compiles(header_pattern())) by {
            assert(head[0] == header_pattern());
        }
    }
    let sequence = match strip_headers(input) {
        Ok(s) => s,
        Err(e) => {
            proof {
                assert(head[0] == e.pattern@);
                assert(head.take(0) =~= Seq::<Seq<char>>::empty());
                assert(first_invalid_is(head, e.pattern@));
            }
            return Err(e);
        },
    };
    let buffer = match substitute(sequence.as_slice()) {
        Ok(b) => b,
        Err(e) => return Err(e),
    };
    let count = match count_variants(sequence.as_slice()) {
        Ok(c) => c,
        Err(e) => return Err(e),
    };
    Ok(buffer.len() as u128 + count)
}

/// Why a timed regex-redux run failed.
#[derive(Debug)]
pub enum RegexReduxError {
    /// A pattern that `regex` does not accept.
    InvalidPattern(InvalidPattern),
    /// The input gave this figure instead of the expected one.
    WrongTotal(u128),
}

/// Reads the clock, computes the regex-redux figure of `input` `ROUNDS`
/// times, checking each time that it is `EXPECTED_TOTAL`, reads the clock
/// again and returns the difference of the two readings (wrapping around on
/// overflow).
pub fn run_regexredux_impl<F: Fn() -> i64>(clock_ms: F, input: &[u8]) -> (r: Result<i64, RegexReduxError>)
    requires
        clock_ms.requires(()),
    ensures
        r is Ok <==> all_compile(all_patterns()) && regexredux_figure(input@) == EXPECTED_TOTAL,
        r matches Err(RegexReduxError::InvalidPattern(_)) <==> !all_compile(all_patterns()),
        r matches Err(RegexReduxError::InvalidPattern(e)) ==> first_invalid_is(
            all_patterns(),
            e.pattern@,
        ),
        r matches Err(RegexReduxError::WrongTotal(n)) ==> n == regexredux_figure(input@),
        r matches Ok(ms) ==> exists|t0: i64, t1: i64|
            clock_ms.ensures((), t0) && clock_ms.ensures((), t1) && ms == t1.wrapping_sub(t0),
{
    let timestamp = clock_ms();
    let mut round: u32 = 0;
    while round < ROUNDS
        invariant
            round <= ROUNDS,
            round > 0 ==> all_compile(all_patterns()) && regexredux_figure(input@) == EXPECTED_TOTAL,
        decreases ROUNDS - round,
    {
        let total = match regexredux_total(input) {
            Ok(t) => t,
            Err(e) => return Err(RegexReduxError::InvalidPattern(e)),
        };
        if total != EXPECTED_TOTAL {
            return Err(RegexReduxError::WrongTotal(total));
        }
        round = round + 1;
    }
    let now = clock_ms();
    let elapsed = now.wrapping_sub(timestamp);
    proof {
        assert(clock_ms.ensures((), timestamp) && clock_ms.ensures((), now) && elapsed
            == now.wrapping_sub(timestamp));
    }
    Ok(elapsed)
}

} // verus!
