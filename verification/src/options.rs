//! Extraction of a named option from a rule line: the text between the
//! first `(` and the last `)` is split on `;`, each fragment is trimmed, and
//! the first fragment starting with `name:` yields the remainder, with one
//! pair of surrounding double quotes stripped. Also the rule's action word,
//! the line's first whitespace token.

use vstd::prelude::*;

use crate::text::{
    chars_start_with, chars_to_string, chars_vec, first_index_of, last_index_end,
    lemma_first_index_bounds, lemma_last_index_end_bounds, find_char, rfind_char_end, split_chars,
    split_spec, starts_with, subrange_chars, trim_chars, trim_spec, ws_token_vec, ws_tokens,
};

verus! {

/// One pair of surrounding double quotes removed, if the value carries them.
pub open spec fn strip_quotes(v: Seq<char>) -> Seq<char> {
    if v.len() >= 2 && v[0] == '"' && v.last() == '"' {
        v.subrange(1, v.len() - 1)
    } else {
        v
    }
}

/// The value of the first fragment, scanning from `i` on, whose trimmed form
/// starts with `name:`.
pub open spec fn frags_value(frags: Seq<Seq<char>>, i: int, name: Seq<char>) -> Option<Seq<char>>
    decreases frags.len() - i,
{
    if i < 0 || i >= frags.len() {
        None
    } else {
        let f = trim_spec(frags[i]);
        if starts_with(f, name + seq![':']) {
            Some(strip_quotes(f.skip(name.len() as int + 1)))
        } else {
            frags_value(frags, i + 1, name)
        }
    }
}

/// The value of option `name` in rule line `l`: fragments between the first
/// `(` and the last `)` are split on `;`; the first fragment whose trimmed
/// form starts with `name:` yields the remainder, dequoted.
pub open spec fn opt_value_of(l: Seq<char>, name: Seq<char>) -> Option<Seq<char>> {
    let o = first_index_of(l, '(', 0);
    if o == l.len() {
        None
    } else {
        let tail = l.skip(o + 1);
        let e = last_index_end(tail, ')', tail.len() as int);
        if e == 0 {
            None
        } else {
            frags_value(split_spec(tail.take(e - 1), ';'), 0, name)
        }
    }
}

/// The rule's action word: the first whitespace token of the line, if any.
pub open spec fn action_of(l: Seq<char>) -> Option<Seq<char>> {
    let toks = ws_tokens(l);
    if toks.len() > 0 {
        Some(toks[0])
    } else {
        None
    }
}

/// Extract the value of a named option from a rule line.
#[verifier::loop_isolation(false)]
pub fn extract_option(rule: &str, option_name: &str) -> (r: Option<String>)
    ensures
        r.deep_view() == opt_value_of(rule@, option_name@),
{
    let rc = chars_vec(rule);
    let o = find_char(&rc, '(');
    proof {
        lemma_first_index_bounds(rc@, '(', 0);
    }
    if o == rc.len() {
        return None;
    }
    let tail = subrange_chars(&rc, o + 1, rc.len());
    proof {
        assert(tail@ =~= rc@.skip(o as int + 1));
    }
    let e = rfind_char_end(&tail, ')');
    proof {
        lemma_last_index_end_bounds(tail@, ')', tail@.len() as int);
    }
    if e == 0 {
        return None;
    }
    let inner = subrange_chars(&tail, 0, e - 1);
    proof {
        assert(inner@ =~= tail@.take(e as int - 1));
    }
    let frags = split_chars(&inner, ';');
    let ghost fd = frags.deep_view();
    let prefix = String::from_str(option_name).concat(":");
    proof {
        reveal_strlit(":");
        assert(":"@ =~= seq![':']);
        assert(prefix@ == option_name@ + seq![':']);
    }
    let plen = prefix.as_str().unicode_len();
    let n: usize = frags.len();
    let mut i: usize = 0;
    while i < n
        invariant
            frags_value(fd, 0, option_name@) == frags_value(fd, i as int, option_name@),
            i <= n,
        decreases n - i,
    {
        proof {
            assert(fd[i as int] == frags@[i as int]@);
        }
        let tf = trim_chars(&frags[i]);
        if chars_start_with(&tf, prefix.as_str()) {
            let v = subrange_chars(&tf, plen, tf.len());
            proof {
                assert(v@ =~= tf@.skip(option_name@.len() as int + 1));
            }
            let out = if v.len() >= 2 && v[0] == '"' && v[v.len() - 1] == '"' {
                subrange_chars(&v, 1, v.len() - 1)
            } else {
                v
            };
            proof {
                assert(out@ == strip_quotes(tf@.skip(option_name@.len() as int + 1)));
            }
            return Some(chars_to_string(&out));
        }
        i = i + 1;
    }
    None
}

/// The action word of a rule line held as a character vector.
pub fn action_token(line: &Vec<char>) -> (r: Option<String>)
    ensures
        r.deep_view() == action_of(line@),
{
    let toks = ws_token_vec(line);
    if toks.len() > 0 {
        proof {
            assert(toks.deep_view()[0] == toks@[0]@);
        }
        Some(chars_to_string(&toks[0]))
    } else {
        None
    }
}

} // verus!
