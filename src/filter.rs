//! Exclude filters: regular expressions that keep a message off a link.
use vstd::prelude::*;

verus! {

#[verifier::external_type_specification]
#[verifier::external_body]
pub struct ExRegex(regex::Regex);

#[verifier::external_type_specification]
#[verifier::external_body]
pub struct ExRegexError(regex::Error);

/// Whether a pattern is accepted by the regex crate's compiler.
pub uninterp spec fn pattern_compiles(pattern: Seq<char>) -> bool;

/// Whether the expression compiled from `pattern` matches anywhere in `text`.
pub uninterp spec fn pattern_matches(pattern: Seq<char>, text: Seq<char>) -> bool;

/// Relies on regex::Regex::new: it returns `Ok` exactly for the patterns it can compile.
#[verifier::external_body]
fn compile_regex(pattern: &str) -> (r: Result<regex::Regex, regex::Error>)
    ensures
        r is Ok <==> pattern_compiles(pattern@),
{
    regex::Regex::new(pattern)
}

/// Relies on regex::Regex::is_match: whether the expression matches anywhere in
/// the text. The filter's expression is the one compiled from its pattern, as
/// `ExcludeFilter::compile` and `ExcludeFilter::duplicate` are the only places
/// that build a filter.
#[verifier::external_body]
fn regex_is_match(f: &ExcludeFilter, text: &str) -> (r: bool)
    ensures
        r == pattern_matches(f@, text@),
{
    f.regex.is_match(text)
}

/// Relies on regex::Regex's `Clone`: the copy is the same compiled expression.
#[verifier::external_body]
fn clone_regex(r: &regex::Regex) -> regex::Regex {
    r.clone()
}

/// A compiled exclude pattern, with the text it was compiled from.
pub struct ExcludeFilter {
    pattern: String,
    regex: regex::Regex,
}

impl View for ExcludeFilter {
    type V = Seq<char>;

    closed spec fn view(&self) -> Seq<char> {
        self.pattern@
    }
}

impl ExcludeFilter {
    /// Compiles a pattern; `None` where the regex crate refuses it.
    pub fn compile(pattern: &str) -> (r: Option<ExcludeFilter>)
        ensures
            r is Some <==> pattern_compiles(pattern@),
            r is Some ==> r->0@ == pattern@,
    {
        match compile_regex(pattern) {
            Ok(regex) => Some(ExcludeFilter { pattern: pattern.to_owned(), regex }),
            Err(_) => None,
        }
    }

    /// The text the filter was compiled from.
    pub fn pattern(&self) -> (r: &str)
        ensures
            r@ == self@,
    {
        self.pattern.as_str()
    }

    /// Whether the filter matches anywhere in `text`.
    pub fn is_match(&self, text: &str) -> (r: bool)
        ensures
            r == pattern_matches(self@, text@),
    {
        regex_is_match(self, text)
    }

    /// Copies the filter.
    pub fn duplicate(&self) -> (r: ExcludeFilter)
        ensures
            r@ == self@,
    {
        ExcludeFilter { pattern: self.pattern.clone(), regex: clone_regex(&self.regex) }
    }
}

/// The position of the first pattern in `pats` that matches `text`.
pub open spec fn first_match_from(pats: Seq<Seq<char>>, text: Seq<char>, i: int) -> Option<int>
    decreases pats.len() - i,
{
    if i < 0 || i >= pats.len() {
        None
    } else if pattern_matches(pats[i], text) {
        Some(i)
    } else {
        first_match_from(pats, text, i + 1)
    }
}

/// The patterns of a list of filters.
pub open spec fn patterns_of(fs: Seq<ExcludeFilter>) -> Seq<Seq<char>> {
    fs.map_values(|f: ExcludeFilter| f@)
}

/// Finds the first filter, in order, that matches `text`.
pub fn first_match(filters: &Vec<ExcludeFilter>, text: &str) -> (r: Option<usize>)
    ensures
        r == (match first_match_from(patterns_of(filters@), text@, 0) {
            Some(i) => Some(i as usize),
            None => None::<usize>,
        }),
        r is Some ==> r->0 < filters@.len(),
{
    let mut i: usize = 0;
    while i < filters.len()
        invariant
            i <= filters@.len(),
            first_match_from(patterns_of(filters@), text@, 0) == first_match_from(patterns_of(filters@), text@, i as int),
        decreases filters@.len() - i,
    {
        if filters[i].is_match(text) {
            return Some(i);
        }
        i = i + 1;
    }
    None
}

/// Copies a list of filters.
pub fn duplicate_all(filters: &Vec<ExcludeFilter>) -> (r: Vec<ExcludeFilter>)
    ensures
        patterns_of(r@) == patterns_of(filters@),
{
    let mut out: Vec<ExcludeFilter> = Vec::new();
    let mut i: usize = 0;
    while i < filters.len()
        invariant
            i <= filters@.len(),
            patterns_of(out@) =~= patterns_of(filters@.subrange(0, i as int)),
        decreases filters@.len() - i,
    {
        out.push(filters[i].duplicate());
        i = i + 1;
        assert(patterns_of(filters@.subrange(0, i as int)) =~= patterns_of(filters@.subrange(0, i - 1)).push(filters@[i - 1]@));
    }
    assert(filters@.subrange(0, filters@.len() as int) =~= filters@);
    out
}

} // verus!
