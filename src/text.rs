//! Character searches over text, with their specifications.
use vstd::prelude::*;
use vstd::string::StrSliceExecFns;
use vstd::string::StringExecFns;

verus! {

/// The position of the first `c` of `s` at or after `i`, or the length of `s`
/// where there is none.
pub open spec fn end_at(s: Seq<char>, c: char, i: int) -> int
    decreases s.len() - i,
{
    if i < 0 || i >= s.len() {
        s.len() as int
    } else if s[i] == c {
        i
    } else {
        end_at(s, c, i + 1)
    }
}

/// The position found from `i` lies between `i` and the length, and no `c`
/// comes before it.
pub proof fn lemma_end_at(s: Seq<char>, c: char, i: int)
    requires
        0 <= i <= s.len(),
    ensures
        i <= end_at(s, c, i) <= s.len(),
        end_at(s, c, i) < s.len() ==> s[end_at(s, c, i)] == c,
        forall|j: int| i <= j < end_at(s, c, i) ==> s[j] != c,
    decreases s.len() - i,
{
    if i < s.len() && s[i] != c {
        lemma_end_at(s, c, i + 1);
    }
}

/// The position of the first `a` followed by `b` in `s` at or after `i`.
pub open spec fn pair_from(s: Seq<char>, a: char, b: char, i: int) -> Option<int>
    decreases s.len() - i,
{
    if i < 0 || i + 1 >= s.len() {
        None
    } else if s[i] == a && s[i + 1] == b {
        Some(i)
    } else {
        pair_from(s, a, b, i + 1)
    }
}

proof fn lemma_pair_from(s: Seq<char>, a: char, b: char, i: int)
    requires
        0 <= i,
    ensures
        pair_from(s, a, b, i) is Some ==> i <= pair_from(s, a, b, i)->0 && pair_from(s, a, b, i)->0 + 1 < s.len(),
    decreases s.len() - i,
{
    if i + 1 < s.len() && !(s[i] == a && s[i + 1] == b) {
        lemma_pair_from(s, a, b, i + 1);
    }
}

/// Finds the first `c` of `s` at or after `from`; the length of `s` where there is none.
pub fn find_end(s: &str, n: usize, c: char, from: usize) -> (r: usize)
    requires
        n == s@.len(),
        from <= n,
    ensures
        r == end_at(s@, c, from as int),
        from <= r <= n,
{
    proof { lemma_end_at(s@, c, from as int); }
    let mut i = from;
    while i < n
        invariant
            n == s@.len(),
            from <= i <= n,
            end_at(s@, c, from as int) == end_at(s@, c, i as int),
        decreases n - i,
    {
        if s.get_char(i) == c {
            return i;
        }
        i = i + 1;
    }
    n
}

/// Finds the first `a` followed by `b` in `s`.
pub fn find_pair(s: &str, a: char, b: char) -> (r: Option<usize>)
    ensures
        r is Some <==> pair_from(s@, a, b, 0) is Some,
        r is Some ==> r->0 == pair_from(s@, a, b, 0)->0 && r->0 + 1 < s@.len(),
{
    proof { lemma_pair_from(s@, a, b, 0); }
    let n = s.unicode_len();
    let mut i: usize = 0;
    while i < n && i + 1 < n
        invariant
            n == s@.len(),
            i <= n,
            pair_from(s@, a, b, 0) == pair_from(s@, a, b, i as int),
        decreases n - i,
    {
        if s.get_char(i) == a && s.get_char(i + 1) == b {
            return Some(i);
        }
        i = i + 1;
    }
    None
}

/// The characters of `s` from `from` to `to`, as a new string.
pub fn slice(s: &str, from: usize, to: usize) -> (r: String)
    requires
        from <= to <= s@.len(),
    ensures
        r@ == s@.subrange(from as int, to as int),
{
    String::from_str(s.substring_char(from, to))
}

/// Whether two texts are equal.
pub fn same_text(a: &str, b: &str) -> (r: bool)
    ensures
        r == (a@ == b@),
{
    String::from_str(a) == String::from_str(b)
}

} // verus!
