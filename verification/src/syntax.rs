use vstd::prelude::*;

verus! {

// A small model of regular-expression syntax: enough to say what the
// benchmark's patterns mean. A pattern is an alternation of branches; a
// branch is a sequence of positions; a position is `(chars, negated,
// repeated)`: it accepts one character in `chars` (or, negated, one not in
// `chars`), exactly once or, repeated, any number of times (`*`).

/// Characters that stand for themselves only when escaped with `\`.
pub open spec fn is_meta(c: char) -> bool {
    c == '\\' || c == '.' || c == '+' || c == '*' || c == '?' || c == '(' || c == ')' || c == '|'
        || c == '[' || c == ']' || c == '{' || c == '}' || c == '^' || c == '$' || c == '#'
        || c == '&' || c == '-' || c == '~'
}

/// Characters that may stand as themselves inside a character class.
pub open spec fn class_safe(c: char) -> bool {
    !(c == ']' || c == '\\' || c == '^' || c == '[' || c == '-' || c == '&' || c == '~')
}

pub open spec fn pos_well_formed(p: (Seq<char>, bool, bool)) -> bool {
    &&& p.0.len() >= 1
    &&& (p.0.len() >= 2 || p.1) ==> forall|i: int| 0 <= i < p.0.len() ==> class_safe(#[trigger] p.0[i])
}

/// The regex text of one position.
pub open spec fn render_pos(p: (Seq<char>, bool, bool)) -> Seq<char> {
    let one = if p.0.len() == 1 && !p.1 {
        if is_meta(p.0[0]) {
            seq!['\\', p.0[0]]
        } else {
            p.0
        }
    } else if p.1 {
        seq!['[', '^'] + p.0 + seq![']']
    } else {
        seq!['['] + p.0 + seq![']']
    };
    if p.2 {
        one + seq!['*']
    } else {
        one
    }
}

/// The regex text of a branch.
pub open spec fn render_branch(b: Seq<(Seq<char>, bool, bool)>) -> Seq<char>
    decreases b.len(),
{
    if b.len() == 0 {
        Seq::empty()
    } else {
        render_branch(b.drop_last()) + render_pos(b.last())
    }
}

/// The regex text of an alternation of branches.
pub open spec fn render_alt(bs: Seq<Seq<(Seq<char>, bool, bool)>>) -> Seq<char>
    decreases bs.len(),
{
    if bs.len() == 0 {
        Seq::empty()
    } else if bs.len() == 1 {
        render_branch(bs[0])
    } else {
        render_alt(bs.drop_last()) + seq!['|'] + render_branch(bs.last())
    }
}

pub open spec fn pos_accepts(p: (Seq<char>, bool, bool), c: char) -> bool {
    if p.1 {
        !p.0.contains(c)
    } else {
        p.0.contains(c)
    }
}

/// Whether a branch matches exactly the string `s`.
pub open spec fn branch_accepts(b: Seq<(Seq<char>, bool, bool)>, s: Seq<char>) -> bool
    decreases b.len(), s.len(),
{
    if b.len() == 0 {
        s.len() == 0
    } else if !b[0].2 {
        s.len() > 0 && pos_accepts(b[0], s[0]) && branch_accepts(b.drop_first(), s.drop_first())
    } else {
        branch_accepts(b.drop_first(), s) || (s.len() > 0 && pos_accepts(b[0], s[0])
            && branch_accepts(b, s.drop_first()))
    }
}

/// Whether some branch of an alternation matches exactly `s`.
pub open spec fn alt_accepts(bs: Seq<Seq<(Seq<char>, bool, bool)>>, s: Seq<char>) -> bool {
    exists|j: int| 0 <= j < bs.len() && branch_accepts(#[trigger] bs[j], s)
}

pub open spec fn alt_well_formed(bs: Seq<Seq<(Seq<char>, bool, bool)>>) -> bool {
    &&& bs.len() > 0
    &&& forall|j: int| 0 <= j < bs.len() ==> (#[trigger] bs[j]).len() > 0
    &&& forall|j: int, i: int| 0 <= j < bs.len() && 0 <= i < bs[j].len() ==> pos_well_formed(#[trigger] bs[j][i])
}

/// The pattern text `p` is an alternation whose matches are exactly the
/// strings for which `lang` holds.
pub open spec fn denotes(p: Seq<char>, lang: spec_fn(Seq<char>) -> bool) -> bool {
    exists|bs: Seq<Seq<(Seq<char>, bool, bool)>>|
        alt_well_formed(bs) && #[trigger] render_alt(bs) == p && forall|s: Seq<char>|
            alt_accepts(bs, s) == lang(s)
}

/// A branch without repetition matches exactly the strings of its length
/// whose characters its positions accept one by one.
pub proof fn lemma_plain_branch(b: Seq<(Seq<char>, bool, bool)>, s: Seq<char>)
    requires
        forall|i: int| 0 <= i < b.len() ==> !(#[trigger] b[i]).2,
    ensures
        branch_accepts(b, s) <==> s.len() == b.len() && forall|i: int|
            0 <= i < b.len() ==> pos_accepts(#[trigger] b[i], s[i]),
    decreases b.len(),
{
    if b.len() > 0 && s.len() > 0 {
        assert(!b[0].2);
        let b1 = b.drop_first();
        let s1 = s.drop_first();
        assert forall|i: int| 0 <= i < b1.len() implies !(#[trigger] b1[i]).2 by {
            assert(b1[i] == b[i + 1]);
        }
        lemma_plain_branch(b1, s1);
        if s.len() == b.len() && forall|i: int| 0 <= i < b.len() ==> pos_accepts(#[trigger] b[i], s[i]) {
            assert(pos_accepts(b[0], s[0]));
            assert forall|i: int| 0 <= i < b1.len() implies pos_accepts(#[trigger] b1[i], s1[i]) by {
                assert(pos_accepts(b[i + 1], s[i + 1]));
            }
        }
        if branch_accepts(b, s) {
            assert forall|i: int| 0 <= i < b.len() implies pos_accepts(#[trigger] b[i], s[i]) by {
                if i > 0 {
                    assert(pos_accepts(b1[i - 1], s1[i - 1]));
                }
            }
        }
    } else if b.len() > 0 {
        assert(!b[0].2);
    }
}

/// `[^x]*` followed by `x` matches exactly the strings that end in `x` and
/// hold no other `x`.
pub proof fn lemma_until(x: char, t: Seq<char>)
    ensures
        branch_accepts(seq![(seq![x], true, true), (seq![x], false, false)], t) <==> t.len() >= 1
            && t.last() == x && forall|i: int| 0 <= i < t.len() - 1 ==> t[i] != x,
    decreases t.len(),
{
    let b = seq![(seq![x], true, true), (seq![x], false, false)];
    let tail = b.drop_first();
    assert(tail =~= seq![(seq![x], false, false)]);
    assert(seq![x].contains(x)) by {
        assert(seq![x][0] == x);
    }
    lemma_plain_branch(tail, t);
    if t.len() > 0 {
        lemma_until(x, t.drop_first());
        assert(forall|c: char| seq![x].contains(c) ==> c == x);
        if t.len() >= 1 && t.last() == x && forall|i: int| 0 <= i < t.len() - 1 ==> t[i] != x {
            if t.len() > 1 {
                assert(t[0] != x);
                assert(t.drop_first().last() == x);
                assert forall|i: int| 0 <= i < t.drop_first().len() - 1 implies t.drop_first()[i] != x by {
                    assert(t[i + 1] != x);
                }
            }
        }
        if branch_accepts(b, t) {
            if !branch_accepts(tail, t) {
                assert forall|i: int| 0 <= i < t.len() - 1 implies t[i] != x by {
                    if i > 0 {
                        assert(t.drop_first()[i - 1] != x);
                    }
                }
            }
        }
    }
}

/// One literal character.
pub open spec fn lit(c: char) -> (Seq<char>, bool, bool) {
    (seq![c], false, false)
}

/// One character out of `cs`.
pub open spec fn one_of(cs: Seq<char>) -> (Seq<char>, bool, bool) {
    (cs, false, false)
}

/// A character other than `c`, any number of times.
pub open spec fn any_but_repeated(c: char) -> (Seq<char>, bool, bool) {
    (seq![c], true, true)
}

/// A character other than `c`, once.
pub open spec fn any_but(c: char) -> (Seq<char>, bool, bool) {
    (seq![c], true, false)
}

/// Membership in a set of at most three characters, spelled out.
pub proof fn lemma_contains3(cs: Seq<char>, d: char)
    requires
        cs.len() <= 3,
    ensures
        cs.contains(d) <==> (cs.len() > 0 && cs[0] == d) || (cs.len() > 1 && cs[1] == d) || (
        cs.len() > 2 && cs[2] == d),
{
    if cs.contains(d) {
        let i = choose|i: int| 0 <= i < cs.len() && cs[i] == d;
    }
    if cs.len() > 0 && cs[0] == d {
        assert(cs[0] == d);
    }
    if cs.len() > 1 && cs[1] == d {
        assert(cs[1] == d);
    }
    if cs.len() > 2 && cs[2] == d {
        assert(cs[2] == d);
    }
}

/// A branch of single, non-negated positions of at most three characters
/// matches exactly the strings of its length whose characters are among
/// those of their positions.
pub proof fn lemma_small_branch(b: Seq<(Seq<char>, bool, bool)>, s: Seq<char>)
    requires
        forall|i: int| 0 <= i < b.len() ==> !(#[trigger] b[i]).2 && !b[i].1 && b[i].0.len() <= 3,
    ensures
        branch_accepts(b, s) <==> s.len() == b.len() && forall|i: int|
            0 <= i < b.len() ==> {
                let cs = (#[trigger] b[i]).0;
                (cs.len() > 0 && cs[0] == s[i]) || (cs.len() > 1 && cs[1] == s[i]) || (cs.len() > 2
                    && cs[2] == s[i])
            },
{
    lemma_plain_branch(b, s);
    assert forall|i: int| 0 <= i < b.len() && i < s.len() implies pos_accepts(#[trigger] b[i], s[i]) == {
        let cs = b[i].0;
        (cs.len() > 0 && cs[0] == s[i]) || (cs.len() > 1 && cs[1] == s[i]) || (cs.len() > 2 && cs[2]
            == s[i])
    } by {
        lemma_contains3(b[i].0, s[i]);
    }
}

} // verus!
