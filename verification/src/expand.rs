//! The template expander: one left-to-right scan that replaces each
//! placeholder, delimited by the configured opening and closing tags, with
//! the string value its trimmed key names in the data mapping.
//!
//! Expanding a result a second time is not in general the same as expanding
//! once: a substituted value may itself contain tag syntax, which a second
//! pass would treat as a placeholder. A single pass is the defined
//! behavior.
use vstd::prelude::*;
use vstd::string::StrSliceExecFns;
use vstd::string::StringExecFns;

use crate::Config;
use crate::json::Data;
use crate::json::get_string_value;
use crate::json::lookup;
use crate::json::string_entries;
use crate::scan::find_from;
use crate::scan::find_in_str;
use crate::scan::lemma_find_from_some;
use crate::scan::trim_spec;
use crate::scan::trim_str;

verus! {

/// The expansion of the suffix of `t` that starts at `from`: up to the
/// first occurrence of `open`, the text is kept; the key between that
/// occurrence and the first occurrence of `close` after it is trimmed and
/// substituted; the rest is expanded in turn. A suffix in which one of the
/// tags no longer occurs is kept unchanged.
pub open spec fn expand_from(
    t: Seq<char>,
    from: int,
    data: Map<Seq<char>, Seq<char>>,
    open_tag: Seq<char>,
    close_tag: Seq<char>,
) -> Seq<char>
    decreases t.len() - from,
{
    if 0 <= from <= t.len() && open_tag.len() > 0 && close_tag.len() > 0 {
        match find_from(t, open_tag, from) {
            Some(o) => match find_from(t, close_tag, o + open_tag.len()) {
                Some(c) => {
                    if from <= o && o + open_tag.len() <= c && c + close_tag.len() <= t.len() {
                        t.subrange(from, o) + lookup(
                            data,
                            trim_spec(t.subrange(o + open_tag.len(), c)),
                        ) + expand_from(t, c + close_tag.len(), data, open_tag, close_tag)
                    } else {
                        t.subrange(from, t.len() as int)
                    }
                },
                None => t.subrange(from, t.len() as int),
            },
            None => t.subrange(from, t.len() as int),
        }
    } else {
        Seq::empty()
    }
}

/// The expansion of a whole template against a data mapping.
pub open spec fn expand_spec(
    t: Seq<char>,
    data: Map<Seq<char>, Seq<char>>,
    open_tag: Seq<char>,
    close_tag: Seq<char>,
) -> Seq<char> {
    expand_from(t, 0, data, open_tag, close_tag)
}

/// Expands every placeholder of `content`, left to right: the text between
/// the configured tags, trimmed of surrounding whitespace, names a key,
/// and the key's string value in `data` (or the empty string, where the
/// key names no string-typed member) replaces the whole placeholder. Text
/// from an opening tag that no closing tag follows is kept unchanged.
pub fn get_parsed_content(content: String, data: &Data, config: &Config) -> (r: Result<
    String,
    &'static str,
>)
    requires
        config.opening_tag@.len() > 0,
        config.closing_tag@.len() > 0,
    ensures
        r matches Ok(parsed) && parsed@ == expand_spec(
            content@,
            string_entries(*data),
            config.opening_tag@,
            config.closing_tag@,
        ),
{
    let ghost t = content@;
    let ghost sm = string_entries(*data);
    let ghost open_seq = config.opening_tag@;
    let ghost close_seq = config.closing_tag@;
    let s = content.as_str();
    let n: usize = s.unicode_len();
    let olen: usize = config.opening_tag.unicode_len();
    let clen: usize = config.closing_tag.unicode_len();
    let mut parsed = String::new();
    let mut pos: usize = 0;
    loop
        invariant
            pos <= n,
            n == t.len(),
            olen == open_seq.len(),
            clen == close_seq.len(),
            olen > 0,
            clen > 0,
            s@ == t,
            t == content@,
            open_seq == config.opening_tag@,
            close_seq == config.closing_tag@,
            sm == string_entries(*data),
            parsed@ + expand_from(t, pos as int, sm, open_seq, close_seq) == expand_from(
                t,
                0,
                sm,
                open_seq,
                close_seq,
            ),
        decreases n - pos,
    {
        let found_open = find_in_str(s, config.opening_tag, pos);
        let o = match found_open {
            Some(o) => o,
            None => {
                assert(expand_from(t, pos as int, sm, open_seq, close_seq) == t.subrange(
                    pos as int,
                    n as int,
                ));
                let rest = s.substring_char(pos, n);
                parsed.append(rest);
                assert(parsed@ =~= expand_from(t, 0, sm, open_seq, close_seq));
                return Ok(parsed);
            },
        };
        proof {
            lemma_find_from_some(t, open_seq, pos as int);
        }
        let found_close = find_in_str(s, config.closing_tag, o + olen);
        let c = match found_close {
            Some(c) => c,
            None => {
                assert(expand_from(t, pos as int, sm, open_seq, close_seq) == t.subrange(
                    pos as int,
                    n as int,
                ));
                let rest = s.substring_char(pos, n);
                parsed.append(rest);
                assert(parsed@ =~= expand_from(t, 0, sm, open_seq, close_seq));
                return Ok(parsed);
            },
        };
        proof {
            lemma_find_from_some(t, close_seq, o + olen);
        }
        let ghost parsed_before = parsed@;
        let before = s.substring_char(pos, o);
        parsed.append(before);
        let raw_key = s.substring_char(o + olen, c);
        let key = trim_str(raw_key);
        match get_string_value(data, key) {
            Some(v) => {
                parsed.append(v.as_str());
            },
            None => {},
        }
        assert(parsed@ =~= parsed_before + t.subrange(pos as int, o as int) + lookup(
            sm,
            trim_spec(t.subrange(o + olen, c as int)),
        ));
        proof {
            let step = t.subrange(pos as int, o as int) + lookup(
                sm,
                trim_spec(t.subrange(o + olen, c as int)),
            );
            assert(expand_from(t, pos as int, sm, open_seq, close_seq) == step + expand_from(
                t,
                c + clen,
                sm,
                open_seq,
                close_seq,
            ));
            assert(parsed_before + (step + expand_from(t, c + clen, sm, open_seq, close_seq))
                =~= (parsed_before + step) + expand_from(t, c + clen, sm, open_seq, close_seq));
        }
        pos = c + clen;
    }
}

} // verus!
