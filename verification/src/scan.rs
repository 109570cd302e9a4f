//! Character-level scanning over template text: locating the first
//! occurrence of a tag and trimming whitespace around a key.
use vstd::prelude::*;
use vstd::string::StrSliceExecFns;

verus! {

/// The pattern `pat` occurs in `t` starting at position `i`.
pub open spec fn matches_at(t: Seq<char>, pat: Seq<char>, i: int) -> bool {
    &&& 0 <= i
    &&& i + pat.len() <= t.len()
    &&& t.subrange(i, i + pat.len()) == pat
}

/// The position of the first occurrence of `pat` in `t` at or after `from`,
/// if there is one.
pub open spec fn find_from(t: Seq<char>, pat: Seq<char>, from: int) -> Option<int>
    decreases t.len() - from,
{
    if pat.len() == 0 {
        if 0 <= from <= t.len() {
            Some(from)
        } else {
            None
        }
    } else if 0 <= from && from + pat.len() <= t.len() {
        if matches_at(t, pat, from) {
            Some(from)
        } else {
            find_from(t, pat, from + 1)
        }
    } else {
        None
    }
}

/// A found occurrence lies at or after the start of the search and matches.
pub proof fn lemma_find_from_some(t: Seq<char>, pat: Seq<char>, from: int)
    requires
        0 <= from,
        find_from(t, pat, from) is Some,
    ensures
        from <= find_from(t, pat, from)->Some_0,
        matches_at(t, pat, find_from(t, pat, from)->Some_0),
    decreases t.len() - from,
{
    if pat.len() == 0 {
        assert(t.subrange(from, from) =~= pat);
    } else if from + pat.len() <= t.len() && !matches_at(t, pat, from) {
        lemma_find_from_some(t, pat, from + 1);
    }
}

/// Where no position at or after `from` matches, the search fails.
pub proof fn lemma_find_from_none(t: Seq<char>, pat: Seq<char>, from: int)
    requires
        0 <= from,
        forall|i: int| from <= i ==> !matches_at(t, pat, i),
    ensures
        find_from(t, pat, from) is None,
    decreases t.len() - from,
{
    if pat.len() == 0 {
        if from <= t.len() {
            assert(t.subrange(from, from) =~= pat);
            assert(matches_at(t, pat, from));
        }
    } else if from + pat.len() <= t.len() {
        lemma_find_from_none(t, pat, from + 1);
    }
}

/// Skipping over one non-matching position does not change the result.
proof fn lemma_find_from_skip(t: Seq<char>, pat: Seq<char>, from: int)
    requires
        0 <= from,
        !matches_at(t, pat, from),
    ensures
        find_from(t, pat, from) == find_from(t, pat, from + 1),
{
    if pat.len() == 0 && from <= t.len() {
        assert(t.subrange(from, from) =~= pat);
        assert(matches_at(t, pat, from));
    }
}

/// A search in `t` from a position at or after `j` is the search in the
/// suffix of `t` that starts at `j`, with every position shifted by `j`.
pub proof fn lemma_find_from_shift(t: Seq<char>, pat: Seq<char>, j: int, from: int)
    requires
        0 <= j <= from <= t.len(),
    ensures
        match find_from(t, pat, from) {
            Some(i) => find_from(t.subrange(j, t.len() as int), pat, from - j) == Some(i - j),
            None => find_from(t.subrange(j, t.len() as int), pat, from - j) is None,
        },
    decreases t.len() - from,
{
    let s = t.subrange(j, t.len() as int);
    if pat.len() == 0 {
    } else if from + pat.len() <= t.len() {
        assert(t.subrange(from, from + pat.len()) =~= s.subrange(
            from - j,
            from - j + pat.len(),
        ));
        if matches_at(t, pat, from) {
            assert(matches_at(s, pat, from - j));
        } else {
            assert(!matches_at(s, pat, from - j));
            lemma_find_from_shift(t, pat, j, from + 1);
        }
    }
}

/// Whether `pat` occurs in `s` starting exactly at position `i`.
fn matches_at_exec(s: &str, pat: &str, i: usize) -> (r: bool)
    requires
        i + pat@.len() <= s@.len(),
        s@.len() <= usize::MAX,
    ensures
        r == matches_at(s@, pat@, i as int),
{
    let m: usize = pat.unicode_len();
    let mut j: usize = 0;
    while j < m
        invariant
            j <= m,
            m == pat@.len(),
            i + m <= s@.len() <= usize::MAX,
            forall|k: int| 0 <= k < j ==> s@[i + k] == pat@[k],
        decreases m - j,
    {
        if s.get_char(i + j) != pat.get_char(j) {
            assert(s@.subrange(i as int, i + pat@.len())[j as int] != pat@[j as int]);
            return false;
        }
        j += 1;
    }
    assert(s@.subrange(i as int, i + pat@.len()) =~= pat@);
    true
}

/// The position of the first occurrence of `pat` in `s` at or after `from`,
/// if there is one.
pub fn find_in_str(s: &str, pat: &str, from: usize) -> (r: Option<usize>)
    requires
        from <= s@.len(),
    ensures
        match r {
            Some(i) => from <= i && find_from(s@, pat@, from as int) == Some(i as int),
            None => find_from(s@, pat@, from as int) is None,
        },
{
    let n: usize = s.unicode_len();
    let m: usize = pat.unicode_len();
    if m == 0 {
        assert(s@.subrange(from as int, from as int) =~= pat@);
        return Some(from);
    }
    if m > n {
        return None;
    }
    let mut i: usize = from;
    while i <= n - m
        invariant
            from <= i,
            i <= n,
            1 <= m == pat@.len(),
            m <= n == s@.len(),
            find_from(s@, pat@, from as int) == find_from(s@, pat@, i as int),
        decreases n - i,
    {
        if matches_at_exec(s, pat, i) {
            return Some(i);
        }
        proof {
            lemma_find_from_skip(s@, pat@, i as int);
        }
        i += 1;
    }
    assert(i + m > n);
    None
}

/// The characters that count as whitespace around a placeholder key.
pub open spec fn is_space_char(c: char) -> bool {
    c == ' ' || c == '\t' || c == '\n' || c == '\r' || c == '\u{0c}'
}

/// `s` without its leading whitespace.
pub open spec fn trim_start_spec(s: Seq<char>) -> Seq<char>
    decreases s.len(),
{
    if s.len() > 0 && is_space_char(s[0]) {
        trim_start_spec(s.drop_first())
    } else {
        s
    }
}

/// `s` without its trailing whitespace.
pub open spec fn trim_end_spec(s: Seq<char>) -> Seq<char>
    decreases s.len(),
{
    if s.len() > 0 && is_space_char(s.last()) {
        trim_end_spec(s.drop_last())
    } else {
        s
    }
}

/// `s` without its leading and trailing whitespace.
pub open spec fn trim_spec(s: Seq<char>) -> Seq<char> {
    trim_end_spec(trim_start_spec(s))
}

/// Dropping a known run of leading whitespace computes `trim_start_spec`.
proof fn lemma_trim_start_at(s: Seq<char>, a: int)
    requires
        0 <= a <= s.len(),
        forall|k: int| 0 <= k < a ==> is_space_char(s[k]),
        a < s.len() ==> !is_space_char(s[a]),
    ensures
        trim_start_spec(s) == s.subrange(a, s.len() as int),
    decreases a,
{
    if a == 0 {
        assert(s.subrange(0, s.len() as int) =~= s);
    } else {
        assert(is_space_char(s[0]));
        let s1 = s.drop_first();
        assert(s1 =~= s.subrange(1, s.len() as int));
        lemma_trim_start_at(s1, a - 1);
        assert(s1.subrange(a - 1, s1.len() as int) =~= s.subrange(a, s.len() as int));
    }
}

/// Dropping a known run of trailing whitespace computes `trim_end_spec`.
proof fn lemma_trim_end_at(s: Seq<char>, b: int)
    requires
        0 <= b <= s.len(),
        forall|k: int| b <= k < s.len() ==> is_space_char(s[k]),
        b > 0 ==> !is_space_char(s[b - 1]),
    ensures
        trim_end_spec(s) == s.subrange(0, b),
    decreases s.len() - b,
{
    if b == s.len() {
        assert(s.subrange(0, b) =~= s);
    } else {
        assert(is_space_char(s.last()));
        let s1 = s.drop_last();
        assert(s1 =~= s.subrange(0, s.len() - 1));
        lemma_trim_end_at(s1, b);
        assert(s1.subrange(0, b) =~= s.subrange(0, b));
    }
}

/// Whether `c` counts as whitespace around a placeholder key.
fn is_space_exec(c: char) -> (r: bool)
    ensures
        r == is_space_char(c),
{
    c == ' ' || c == '\t' || c == '\n' || c == '\r' || c == '\u{0c}'
}

/// `s` without its leading and trailing whitespace.
pub fn trim_str<'a>(s: &'a str) -> (r: &'a str)
    ensures
        r@ == trim_spec(s@),
{
    let n: usize = s.unicode_len();
    let mut a: usize = 0;
    while a < n && is_space_exec(s.get_char(a))
        invariant
            a <= n,
            n == s@.len(),
            forall|k: int| 0 <= k < a ==> is_space_char(s@[k]),
        decreases n - a,
    {
        a += 1;
    }
    let mut b: usize = n;
    while b > a && is_space_exec(s.get_char(b - 1))
        invariant
            a <= b <= n,
            n == s@.len(),
            forall|k: int| b <= k < n ==> is_space_char(s@[k]),
        decreases b,
    {
        b -= 1;
    }
    proof {
        lemma_trim_start_at(s@, a as int);
        let s1 = s@.subrange(a as int, s@.len() as int);
        lemma_trim_end_at(s1, b - a);
        assert(s1.subrange(0, b - a) =~= s@.subrange(a as int, b as int));
    }
    s.substring_char(a, b)
}

} // verus!
