use vstd::prelude::*;

verus! {

/// A compiled byte-oriented regular expression of the `regex` crate.
#[verifier::external_type_specification]
#[verifier::external_body]
pub struct ExRegex(regex::bytes::Regex);

/// The error `regex` reports for a pattern it does not accept.
#[verifier::external_type_specification]
#[verifier::external_body]
pub struct ExRegexError(regex::Error);

/// Whether `regex::bytes::Regex::new` accepts `pattern` (its syntax is valid
/// and the compiled program stays within the default size limit).
pub uninterp spec fn regex_compiles(pattern: Seq<char>) -> bool;

/// The successive non-overlapping matches, as `(start, end)` byte offsets,
/// that `regex::bytes::Regex::find_iter` yields for `pattern` in `haystack`.
pub uninterp spec fn regex_matches(pattern: Seq<char>, haystack: Seq<u8>) -> Seq<(usize, usize)>;

/// What `regex::bytes::Regex::replace_all` returns for `pattern`, `haystack`
/// and a byte replacement (in which `$` introduces a capture-group reference).
pub uninterp spec fn regex_replaced(pattern: Seq<char>, haystack: Seq<u8>, replacement: Seq<u8>) -> Seq<u8>;

/// `spans` are matches in a haystack of `len` bytes, in order and without
/// overlapping: each lies within the haystack, and each ends before the next
/// one starts.
pub open spec fn ordered_spans(spans: Seq<(usize, usize)>, len: int) -> bool {
    &&& forall|i: int| 0 <= i < spans.len() ==> #[trigger] spans[i].0 <= spans[i].1 <= len
    &&& forall|i: int, j: int| 0 <= i < j < spans.len() ==> #[trigger] spans[i].1 <= #[trigger] spans[j].0
}

/// `haystack` with every span of `spans` replaced by `rep`.
pub open spec fn splice(haystack: Seq<u8>, spans: Seq<(usize, usize)>, rep: Seq<u8>) -> Seq<u8>
    decreases spans.len(),
{
    if spans.len() == 0 {
        haystack
    } else {
        let last = spans.last();
        splice(haystack.subrange(0, last.0 as int), spans.drop_last(), rep) + rep + haystack.subrange(
            last.1 as int,
            haystack.len() as int,
        )
    }
}

/// `r` is `haystack` with each of `spans` replaced by `rep`, where `spans`
/// are in order, do not overlap and lie within the haystack.
pub open spec fn spliced_from(r: Seq<u8>, haystack: Seq<u8>, spans: Seq<(usize, usize)>, rep: Seq<u8>) -> bool {
    &&& ordered_spans(spans, haystack.len() as int)
    &&& r == splice(haystack, spans, rep)
}

/// The byte `$`, which starts a capture-group reference in a replacement.
pub open spec fn dollar() -> u8 {
    36u8
}

/// A regular expression over bytes, kept together with the pattern it was
/// compiled from. Its view is that pattern. The fields are private and only
/// `Pattern::new` builds one, compiling `re` from `source`; the trusted calls
/// below read `re` and speak of `source`, and rely on that.
#[derive(Debug)]
pub struct Pattern {
    source: String,
    re: regex::bytes::Regex,
}

impl View for Pattern {
    type V = Seq<char>;

    closed spec fn view(&self) -> Seq<char> {
        self.source@
    }
}

/// A pattern that `regex` does not accept.
#[derive(Clone, Debug, PartialEq, Eq)]
pub struct InvalidPattern {
    pub pattern: String,
}

/// Calls `regex::bytes::Regex::new`, which compiles `pattern` and fails
/// exactly when the pattern is not accepted.
#[verifier::external_body]
fn regex_new(pattern: &str) -> (r: Result<regex::bytes::Regex, regex::Error>)
    ensures
        r is Ok <==> regex_compiles(pattern@),
{
    regex::bytes::Regex::new(pattern)
}

/// Calls `regex::bytes::Regex::find_iter` on the regex of `p` (which was
/// compiled from `p@`) and counts the matches it yields.
#[verifier::external_body]
fn regex_find_iter_count(p: &Pattern, haystack: &[u8]) -> (n: usize)
    ensures
        n == regex_matches(p@, haystack@).len(),
{
    p.re.find_iter(haystack).count()
}

/// Calls `regex::bytes::Regex::replace_all` on the regex of `p` (which was
/// compiled from `p@`). Where `find_iter` finds no match, the haystack comes
/// back unchanged. Where the replacement holds no `$`, every match that
/// `find_iter` yields is replaced by the replacement bytes, and the rest of
/// the haystack is kept (the matches being those of `find_iter`: in order,
/// not overlapping, within the haystack); what a `$` expands to is left to
/// the name.
#[verifier::external_body]
fn regex_replace_all(p: &Pattern, haystack: &[u8], replacement: &[u8]) -> (r: Vec<u8>)
    ensures
        r@ == regex_replaced(p@, haystack@, replacement@),
        regex_matches(p@, haystack@).len() == 0 ==> r@ == haystack@,
        !replacement@.contains(dollar()) ==> spliced_from(
            r@,
            haystack@,
            regex_matches(p@, haystack@),
            replacement@,
        ),
{
    p.re.replace_all(haystack, replacement).into_owned()
}

impl Pattern {
    /// Compiles `source`; fails exactly when `regex` does not accept it.
    pub fn new(source: &str) -> (r: Result<Pattern, InvalidPattern>)
        ensures
            r is Ok <==> regex_compiles(source@),
            r matches Ok(p) ==> p@ == source@,
            r matches Err(e) ==> e.pattern@ == source@,
    {
        match regex_new(source) {
            Ok(re) => Ok(Pattern { source: String::from_str(source), re }),
            Err(_) => Err(InvalidPattern { pattern: String::from_str(source) }),
        }
    }

    /// The pattern this regex was compiled from.
    pub fn source(&self) -> (s: &str)
        ensures
            s@ == self@,
    {
        self.source.as_str()
    }

    /// The number of successive non-overlapping matches in `haystack`.
    pub fn count_matches(&self, haystack: &[u8]) -> (n: usize)
        ensures
            n == regex_matches(self@, haystack@).len(),
    {
        regex_find_iter_count(self, haystack)
    }

    /// `haystack` with every match replaced by `replacement`.
    pub fn replace_all(&self, haystack: &[u8], replacement: &[u8]) -> (r: Vec<u8>)
        ensures
            r@ == regex_replaced(self@, haystack@, replacement@),
            regex_matches(self@, haystack@).len() == 0 ==> r@ == haystack@,
            !replacement@.contains(dollar()) ==> spliced_from(
                r@,
                haystack@,
                regex_matches(self@, haystack@),
                replacement@,
            ),
    {
        regex_replace_all(self, haystack, replacement)
    }
}

} // verus!
