//! Laws of the template expander: how an expansion decomposes, and when it
//! leaves the template unchanged.
use vstd::prelude::*;

use crate::expand::expand_from;
use crate::expand::expand_spec;
use crate::json::lookup;
use crate::scan::find_from;
use crate::scan::lemma_find_from_none;
use crate::scan::lemma_find_from_shift;
use crate::scan::lemma_find_from_some;
use crate::scan::matches_at;
use crate::scan::trim_spec;

verus! {

/// Expanding from a position inside a template is expanding the suffix
/// that starts there.
pub proof fn lemma_expand_from_suffix(
    t: Seq<char>,
    j: int,
    data: Map<Seq<char>, Seq<char>>,
    open_tag: Seq<char>,
    close_tag: Seq<char>,
)
    requires
        0 <= j <= t.len(),
        open_tag.len() > 0,
        close_tag.len() > 0,
    ensures
        expand_from(t, j, data, open_tag, close_tag) == expand_spec(
            t.subrange(j, t.len() as int),
            data,
            open_tag,
            close_tag,
        ),
    decreases t.len() - j,
{
    let s = t.subrange(j, t.len() as int);
    lemma_find_from_shift(t, open_tag, j, j);
    match find_from(t, open_tag, j) {
        None => {
            assert(s.subrange(0, s.len() as int) =~= s);
        },
        Some(o) => {
            lemma_find_from_some(t, open_tag, j);
            lemma_find_from_shift(t, close_tag, j, o + open_tag.len());
            match find_from(t, close_tag, o + open_tag.len()) {
                None => {
                    assert(s.subrange(0, s.len() as int) =~= s);
                },
                Some(c) => {
                    lemma_find_from_some(t, close_tag, o + open_tag.len());
                    assert(s.subrange(0, o - j) =~= t.subrange(j, o));
                    assert(s.subrange(o - j + open_tag.len(), c - j) =~= t.subrange(
                        o + open_tag.len(),
                        c,
                    ));
                    assert(s.subrange(c + close_tag.len() - j, s.len() as int) =~= t.subrange(
                        c + close_tag.len(),
                        t.len() as int,
                    ));
                    lemma_expand_from_suffix(t, c + close_tag.len(), data, open_tag, close_tag);
                    lemma_expand_from_suffix(
                        s,
                        c + close_tag.len() - j,
                        data,
                        open_tag,
                        close_tag,
                    );
                },
            }
        },
    }
}

/// With no occurrence of the opening tag, expansion returns the template
/// unchanged.
pub proof fn lemma_expand_no_opening_tag(
    t: Seq<char>,
    data: Map<Seq<char>, Seq<char>>,
    open_tag: Seq<char>,
    close_tag: Seq<char>,
)
    requires
        open_tag.len() > 0,
        close_tag.len() > 0,
        forall|i: int| !matches_at(t, open_tag, i),
    ensures
        expand_spec(t, data, open_tag, close_tag) == t,
{
    lemma_find_from_none(t, open_tag, 0);
    assert(t.subrange(0, t.len() as int) =~= t);
}

/// With no occurrence of the closing tag, expansion returns the template
/// unchanged: an opening tag that no closing tag follows is left as
/// literal text.
pub proof fn lemma_expand_no_closing_tag(
    t: Seq<char>,
    data: Map<Seq<char>, Seq<char>>,
    open_tag: Seq<char>,
    close_tag: Seq<char>,
)
    requires
        open_tag.len() > 0,
        close_tag.len() > 0,
        forall|i: int| !matches_at(t, close_tag, i),
    ensures
        expand_spec(t, data, open_tag, close_tag) == t,
{
    match find_from(t, open_tag, 0) {
        None => {
            assert(t.subrange(0, t.len() as int) =~= t);
        },
        Some(o) => {
            lemma_find_from_some(t, open_tag, 0);
            lemma_find_from_none(t, close_tag, o + open_tag.len());
            assert(t.subrange(0, t.len() as int) =~= t);
        },
    }
}

/// Placeholders resolve independently and left to right: a template whose
/// first placeholder is well formed expands to the text before it, then
/// the value of its trimmed key, then the expansion of the rest of the
/// template.
pub proof fn lemma_expand_step(
    a: Seq<char>,
    k: Seq<char>,
    rest: Seq<char>,
    data: Map<Seq<char>, Seq<char>>,
    open_tag: Seq<char>,
    close_tag: Seq<char>,
)
    requires
        open_tag.len() > 0,
        close_tag.len() > 0,
        find_from(a + open_tag + k + close_tag + rest, open_tag, 0) == Some(a.len() as int),
        find_from(
            a + open_tag + k + close_tag + rest,
            close_tag,
            (a.len() + open_tag.len()) as int,
        ) == Some((a.len() + open_tag.len() + k.len()) as int),
    ensures
        expand_spec(a + open_tag + k + close_tag + rest, data, open_tag, close_tag) == a + lookup(
            data,
            trim_spec(k),
        ) + expand_spec(rest, data, open_tag, close_tag),
{
    let t = a + open_tag + k + close_tag + rest;
    let o = a.len() as int;
    let c = (a.len() + open_tag.len() + k.len()) as int;
    assert(t.len() == a.len() + open_tag.len() + k.len() + close_tag.len() + rest.len());
    assert(t.subrange(0, o) =~= a);
    assert(t.subrange(o + open_tag.len(), c) =~= k);
    assert(t.subrange(c + close_tag.len(), t.len() as int) =~= rest);
    lemma_expand_from_suffix(t, c + close_tag.len(), data, open_tag, close_tag);
}

/// A single well-formed placeholder whose trimmed key names a string
/// value expands to the text around it with the value in its place.
pub proof fn lemma_single_placeholder_present(
    a: Seq<char>,
    k: Seq<char>,
    b: Seq<char>,
    v: Seq<char>,
    data: Map<Seq<char>, Seq<char>>,
    open_tag: Seq<char>,
    close_tag: Seq<char>,
)
    requires
        open_tag.len() > 0,
        close_tag.len() > 0,
        find_from(a + open_tag + k + close_tag + b, open_tag, 0) == Some(a.len() as int),
        find_from(a + open_tag + k + close_tag + b, close_tag, (a.len() + open_tag.len()) as int) == Some(
            (a.len() + open_tag.len() + k.len()) as int,
        ),
        find_from(
            a + open_tag + k + close_tag + b,
            open_tag,
            (a.len() + open_tag.len() + k.len() + close_tag.len()) as int,
        ) is None,
        data.contains_key(trim_spec(k)),
        data[trim_spec(k)] == v,
    ensures
        expand_spec(a + open_tag + k + close_tag + b, data, open_tag, close_tag) == a + v + b,
{
    let t = a + open_tag + k + close_tag + b;
    let end = (a.len() + open_tag.len() + k.len() + close_tag.len()) as int;
    lemma_expand_step(a, k, b, data, open_tag, close_tag);
    lemma_find_from_shift(t, open_tag, end, end);
    assert(t.subrange(end, t.len() as int) =~= b);
    assert(b.subrange(0, b.len() as int) =~= b);
    assert(expand_spec(b, data, open_tag, close_tag) == b);
}

/// A single well-formed placeholder whose trimmed key names no string
/// value expands to the empty string: only the text around it remains.
pub proof fn lemma_single_placeholder_missing(
    a: Seq<char>,
    k: Seq<char>,
    b: Seq<char>,
    data: Map<Seq<char>, Seq<char>>,
    open_tag: Seq<char>,
    close_tag: Seq<char>,
)
    requires
        open_tag.len() > 0,
        close_tag.len() > 0,
        find_from(a + open_tag + k + close_tag + b, open_tag, 0) == Some(a.len() as int),
        find_from(a + open_tag + k + close_tag + b, close_tag, (a.len() + open_tag.len()) as int) == Some(
            (a.len() + open_tag.len() + k.len()) as int,
        ),
        find_from(
            a + open_tag + k + close_tag + b,
            open_tag,
            (a.len() + open_tag.len() + k.len() + close_tag.len()) as int,
        ) is None,
        !data.contains_key(trim_spec(k)),
    ensures
        expand_spec(a + open_tag + k + close_tag + b, data, open_tag, close_tag) == a + b,
{
    let t = a + open_tag + k + close_tag + b;
    let end = (a.len() + open_tag.len() + k.len() + close_tag.len()) as int;
    lemma_expand_step(a, k, b, data, open_tag, close_tag);
    lemma_find_from_shift(t, open_tag, end, end);
    assert(t.subrange(end, t.len() as int) =~= b);
    assert(b.subrange(0, b.len() as int) =~= b);
    assert(a + lookup(data, trim_spec(k)) + b =~= a + b);
}

/// Keys that are equal once trimmed resolve identically: whitespace around
/// the key inside a placeholder does not change the expansion.
pub proof fn lemma_trimmed_keys_equivalent(
    a: Seq<char>,
    k1: Seq<char>,
    k2: Seq<char>,
    rest: Seq<char>,
    data: Map<Seq<char>, Seq<char>>,
    open_tag: Seq<char>,
    close_tag: Seq<char>,
)
    requires
        open_tag.len() > 0,
        close_tag.len() > 0,
        find_from(a + open_tag + k1 + close_tag + rest, open_tag, 0) == Some(a.len() as int),
        find_from(a + open_tag + k1 + close_tag + rest, close_tag, (a.len() + open_tag.len()) as int)
            == Some((a.len() + open_tag.len() + k1.len()) as int),
        find_from(a + open_tag + k2 + close_tag + rest, open_tag, 0) == Some(a.len() as int),
        find_from(a + open_tag + k2 + close_tag + rest, close_tag, (a.len() + open_tag.len()) as int)
            == Some((a.len() + open_tag.len() + k2.len()) as int),
        trim_spec(k1) == trim_spec(k2),
    ensures
        expand_spec(a + open_tag + k1 + close_tag + rest, data, open_tag, close_tag)
            == expand_spec(a + open_tag + k2 + close_tag + rest, data, open_tag, close_tag),
{
    lemma_expand_step(a, k1, rest, data, open_tag, close_tag);
    lemma_expand_step(a, k2, rest, data, open_tag, close_tag);
}

} // verus!
