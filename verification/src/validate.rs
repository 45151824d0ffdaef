//! Structural validation of a Suricata rule line. The checks are applied in
//! a fixed order and the first failure wins: a rule is trimmed; an empty rule
//! is refused; a `#` comment is accepted; the line must split on `(` into a
//! header and an options part; the header needs at least seven whitespace
//! tokens, a known action word first and a direction operator fifth; the
//! options must end with `)`, hold at least one non-empty option, a `sid:`
//! and a `msg:` option; and every `sid:` value must read as a 64-bit number.

use vstd::prelude::*;

use crate::text::{
    chars_eq_str, chars_start_with, chars_to_string, chars_vec, find_char, first_index_of,
    lemma_first_index_bounds, parse_u64_chars, parses_as_u64, split_chars, split_spec,
    starts_with, subrange_chars, trim_chars, trim_spec, ws_token_vec, ws_tokens,
};

verus! {

/// The action words a rule may start with.
pub open spec fn is_action_word(t: Seq<char>) -> bool {
    t == "alert"@ || t == "drop"@ || t == "reject"@ || t == "pass"@ || t == "log"@
}

pub open spec fn frag_nonempty(f: Seq<char>) -> bool {
    trim_spec(f).len() > 0
}

pub open spec fn frag_is_sid(f: Seq<char>) -> bool {
    starts_with(trim_spec(f), "sid:"@)
}

pub open spec fn frag_is_msg(f: Seq<char>) -> bool {
    starts_with(trim_spec(f), "msg:"@)
}

/// The trimmed value after `sid:` in a trimmed option fragment.
pub open spec fn sid_value(f: Seq<char>) -> Seq<char> {
    trim_spec(trim_spec(f).skip(4))
}

/// The value of the first `sid:` option whose value does not read as a
/// number, scanning from index `i` on.
pub open spec fn first_bad_sid(frags: Seq<Seq<char>>, i: int) -> Option<Seq<char>>
    decreases frags.len() - i,
{
    if i < 0 || i >= frags.len() {
        None
    } else if frag_is_sid(frags[i]) && !parses_as_u64(sid_value(frags[i])) {
        Some(sid_value(frags[i]))
    } else {
        first_bad_sid(frags, i + 1)
    }
}

/// What the validator answers: `None` for a well-formed rule, otherwise the
/// exact diagnostic message, with the checks applied in order and the first
/// failure winning. The line is split once, on its first `(`: the header
/// stands before it, the options after it, so a later `(` inside an option
/// is tolerated.
pub open spec fn rule_error(s: Seq<char>) -> Option<Seq<char>> {
    let t = trim_spec(s);
    if t.len() == 0 {
        Some("Rule cannot be empty"@)
    } else if t[0] == '#' {
        None
    } else {
        let o = first_index_of(t, '(', 0);
        if o == t.len() {
            Some("Rule must contain header and options parts separated by '('"@)
        } else {
            let toks = ws_tokens(t.take(o));
            if toks.len() < 7 {
                Some(
                    "Header must contain at least: action, proto, src_ip, src_port, direction, dst_ip, dst_port"@,
                )
            } else if !is_action_word(toks[0]) {
                Some("Invalid action: "@ + toks[0] + ". Must be one of: alert, drop, reject, pass, log"@)
            } else if toks[4] != "->"@ && toks[4] != "<>"@ {
                Some("Invalid direction operator: "@ + toks[4] + ". Must be -> or <>"@)
            } else {
                let opts = trim_spec(t.skip(o + 1));
                if opts.len() == 0 || opts.last() != ')' {
                    Some("Options must end with ')'"@)
                } else {
                    let frags = split_spec(opts.drop_last(), ';');
                    if !(exists|i: int| 0 <= i < frags.len() && frag_nonempty(frags[i])) {
                        Some("At least one option is required"@)
                    } else if !(exists|i: int| 0 <= i < frags.len() && frag_is_sid(frags[i])) {
                        Some("Missing required option: sid"@)
                    } else if !(exists|i: int| 0 <= i < frags.len() && frag_is_msg(frags[i])) {
                        Some("Missing required option: msg"@)
                    } else {
                        match first_bad_sid(frags, 0) {
                            Some(v) => Some("Invalid sid format: "@ + v + ". Must be a number"@),
                            None => None,
                        }
                    }
                }
            }
        }
    }
}

/// A rule line the store accepts.
pub open spec fn rule_valid(s: Seq<char>) -> bool {
    rule_error(s) is None
}

/// Check a rule line, returning the exact diagnostic of the first check that
/// fails.
#[verifier::loop_isolation(false)]
pub fn validate_rule_syntax(rule: &str) -> (r: Result<(), String>)
    ensures
        r is Ok <==> rule_valid(rule@),
        r matches Err(m) ==> rule_error(rule@) == Some(m@),
{
    let rc = chars_vec(rule);
    let t = trim_chars(&rc);
    if t.len() == 0 {
        return Err(String::from_str("Rule cannot be empty"));
    }
    if t[0] == '#' {
        return Ok(());
    }
    let o = find_char(&t, '(');
    proof {
        lemma_first_index_bounds(t@, '(', 0);
    }
    if o == t.len() {
        return Err(String::from_str("Rule must contain header and options parts separated by '('"));
    }
    let header = subrange_chars(&t, 0, o);
    proof {
        assert(header@ =~= t@.take(o as int));
    }
    let toks = ws_token_vec(&header);
    if toks.len() < 7 {
        return Err(
            String::from_str(
                "Header must contain at least: action, proto, src_ip, src_port, direction, dst_ip, dst_port",
            ),
        );
    }
    proof {
        assert(toks.deep_view()[0] == toks@[0]@);
        assert(toks.deep_view()[4] == toks@[4]@);
    }
    let action_ok = chars_eq_str(&toks[0], "alert") || chars_eq_str(&toks[0], "drop")
        || chars_eq_str(&toks[0], "reject") || chars_eq_str(&toks[0], "pass")
        || chars_eq_str(&toks[0], "log");
    if !action_ok {
        let a = chars_to_string(&toks[0]);
        let m = String::from_str("Invalid action: ").concat(a.as_str()).concat(
            ". Must be one of: alert, drop, reject, pass, log",
        );
        return Err(m);
    }
    if !(chars_eq_str(&toks[4], "->") || chars_eq_str(&toks[4], "<>")) {
        let d = chars_to_string(&toks[4]);
        let m = String::from_str("Invalid direction operator: ").concat(d.as_str()).concat(
            ". Must be -> or <>",
        );
        return Err(m);
    }
    let options_raw = subrange_chars(&t, o + 1, t.len());
    proof {
        assert(options_raw@ =~= t@.skip(o as int + 1));
    }
    let opts = trim_chars(&options_raw);
    if opts.len() == 0 || opts[opts.len() - 1] != ')' {
        return Err(String::from_str("Options must end with ')'"));
    }
    let body = subrange_chars(&opts, 0, opts.len() - 1);
    proof {
        assert(body@ =~= opts@.drop_last());
    }
    let frags = split_chars(&body, ';');
    let ghost fd = frags.deep_view();
    let n: usize = frags.len();
    let mut has_ne: bool = false;
    let mut has_sid: bool = false;
    let mut has_msg: bool = false;
    let mut i: usize = 0;
    while i < n
        invariant
            n == fd.len(),
            fd == frags.deep_view(),
            i <= n,
            has_ne <==> exists|j: int| 0 <= j < i && frag_nonempty(fd[j]),
            has_sid <==> exists|j: int| 0 <= j < i && frag_is_sid(fd[j]),
            has_msg <==> exists|j: int| 0 <= j < i && frag_is_msg(fd[j]),
        decreases n - i,
    {
        proof {
            assert(fd[i as int] == frags@[i as int]@);
        }
        let tf = trim_chars(&frags[i]);
        if tf.len() > 0 {
            has_ne = true;
            proof {
                assert(frag_nonempty(fd[i as int]));
            }
        }
        if chars_start_with(&tf, "sid:") {
            has_sid = true;
            proof {
                assert(frag_is_sid(fd[i as int]));
            }
        }
        if chars_start_with(&tf, "msg:") {
            has_msg = true;
            proof {
                assert(frag_is_msg(fd[i as int]));
            }
        }
        i = i + 1;
    }
    if !has_ne {
        return Err(String::from_str("At least one option is required"));
    }
    if !has_sid {
        return Err(String::from_str("Missing required option: sid"));
    }
    if !has_msg {
        return Err(String::from_str("Missing required option: msg"));
    }
    let mut k: usize = 0;
    while k < n
        invariant
            n == fd.len(),
            fd == frags.deep_view(),
            k <= n,
            first_bad_sid(fd, 0) == first_bad_sid(fd, k as int),
        decreases n - k,
    {
        proof {
            assert(fd[k as int] == frags@[k as int]@);
        }
        let tf = trim_chars(&frags[k]);
        if chars_start_with(&tf, "sid:") {
            proof {
                reveal_strlit("sid:");
            }
            let raw = subrange_chars(&tf, 4, tf.len());
            proof {
                assert(raw@ =~= tf@.skip(4));
            }
            let sv = trim_chars(&raw);
            if parse_u64_chars(&sv).is_none() {
                proof {
                    assert(first_bad_sid(fd, k as int) == Some(sv@));
                }
                let vs = chars_to_string(&sv);
                let m = String::from_str("Invalid sid format: ").concat(vs.as_str()).concat(
                    ". Must be a number",
                );
                return Err(m);
            }
        }
        k = k + 1;
    }
    Ok(())
}

} // verus!
