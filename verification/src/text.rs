//! Character-level text utilities shared by the rule validator, the option
//! extractor and the rules-file store: whitespace trimming, splitting on a
//! delimiter, whitespace tokenisation, and decimal parsing. Every executable
//! function is specified against a recursive model over `Seq<char>`.

use vstd::prelude::*;

verus! {

/// The Unicode White_Space property, the set `str::trim` and
/// `str::split_whitespace` go by.
pub open spec fn is_space_char(c: char) -> bool {
    let u = c as u32;
    ||| u == 0x20
    ||| (0x09 <= u && u <= 0x0d)
    ||| u == 0x85
    ||| u == 0xa0
    ||| u == 0x1680
    ||| (0x2000 <= u && u <= 0x200a)
    ||| u == 0x2028
    ||| u == 0x2029
    ||| u == 0x202f
    ||| u == 0x205f
    ||| u == 0x3000
}

pub fn is_space(c: char) -> (r: bool)
    ensures
        r == is_space_char(c),
{
    let u: u32 = c as u32;
    u == 0x20 || (0x09 <= u && u <= 0x0d) || u == 0x85 || u == 0xa0 || u == 0x1680
        || (0x2000 <= u && u <= 0x200a) || u == 0x2028 || u == 0x2029 || u == 0x202f
        || u == 0x205f || u == 0x3000
}

/// Index of the first non-whitespace character at or after `i`; `s.len()` if
/// the rest is all whitespace.
pub open spec fn first_non_space_at(s: Seq<char>, i: int) -> int
    decreases s.len() - i,
{
    if i < 0 || i >= s.len() {
        s.len() as int
    } else if !is_space_char(s[i]) {
        i
    } else {
        first_non_space_at(s, i + 1)
    }
}

/// Index of the last non-whitespace character strictly before `i`; `-1` if
/// there is none.
pub open spec fn last_non_space_before(s: Seq<char>, i: int) -> int
    decreases i,
{
    if i <= 0 || i > s.len() {
        -1
    } else if !is_space_char(s[i - 1]) {
        i - 1
    } else {
        last_non_space_before(s, i - 1)
    }
}

/// What `str::trim` leaves: the subrange from the first to the last
/// non-whitespace character.
pub open spec fn trim_spec(s: Seq<char>) -> Seq<char> {
    let a = first_non_space_at(s, 0);
    let b = last_non_space_before(s, s.len() as int);
    if a == s.len() {
        Seq::empty()
    } else {
        s.subrange(a, b + 1)
    }
}

proof fn lemma_first_non_space_bounds(s: Seq<char>, i: int)
    requires
        0 <= i <= s.len(),
    ensures
        i <= first_non_space_at(s, i) <= s.len(),
        first_non_space_at(s, i) < s.len() ==> !is_space_char(s[first_non_space_at(s, i)]),
        forall|j: int| i <= j < first_non_space_at(s, i) ==> is_space_char(s[j]),
    decreases s.len() - i,
{
    if i < s.len() && is_space_char(s[i]) {
        lemma_first_non_space_bounds(s, i + 1);
    }
}

proof fn lemma_last_non_space_bounds(s: Seq<char>, i: int)
    requires
        0 <= i <= s.len(),
    ensures
        -1 <= last_non_space_before(s, i) < i,
        last_non_space_before(s, i) >= 0 ==> !is_space_char(s[last_non_space_before(s, i)]),
        forall|j: int| last_non_space_before(s, i) < j < i ==> is_space_char(s[j]),
    decreases i,
{
    if i > 0 && is_space_char(s[i - 1]) {
        lemma_last_non_space_bounds(s, i - 1);
    }
}

/// Copy the characters of a string slice into a vector.
pub fn chars_vec(s: &str) -> (r: Vec<char>)
    ensures
        r@ == s@,
{
    let n: usize = s.unicode_len();
    let mut r: Vec<char> = Vec::new();
    let mut i: usize = 0;
    while i < n
        invariant
            n == s@.len(),
            i <= n,
            r@ == s@.subrange(0, i as int),
        decreases n - i,
    {
        r.push(s.get_char(i));
        i = i + 1;
        assert(r@ =~= s@.subrange(0, i as int));
    }
    assert(r@ =~= s@);
    r
}

/// Relies on `alloc::string::String::push`: appends one character.
#[verifier::external_body]
pub fn push_char(s: &mut String, c: char)
    ensures
        final(s)@ == old(s)@.push(c),
{
    s.push(c);
}

/// Build an owned string out of a character vector.
pub fn chars_to_string(v: &Vec<char>) -> (r: String)
    ensures
        r@ == v@,
{
    let mut r: String = String::new();
    let mut i: usize = 0;
    while i < v.len()
        invariant
            i <= v@.len(),
            r@ == v@.subrange(0, i as int),
        decreases v@.len() - i,
    {
        push_char(&mut r, v[i]);
        i = i + 1;
        assert(r@ =~= v@.subrange(0, i as int));
    }
    assert(r@ =~= v@);
    r
}

/// Character-by-character string equality.
pub fn str_eq(a: &str, b: &str) -> (r: bool)
    ensures
        r == (a@ == b@),
{
    let na: usize = a.unicode_len();
    let nb: usize = b.unicode_len();
    if na != nb {
        return false;
    }
    let mut i: usize = 0;
    while i < na
        invariant
            na == a@.len(),
            na == b@.len(),
            i <= na,
            forall|j: int| 0 <= j < i ==> a@[j] == b@[j],
        decreases na - i,
    {
        if a.get_char(i) != b.get_char(i) {
            return false;
        }
        i = i + 1;
    }
    proof {
        assert(a@ =~= b@);
    }
    true
}

/// `str::trim` over a character vector.
pub fn trim_chars(s: &Vec<char>) -> (r: Vec<char>)
    ensures
        r@ == trim_spec(s@),
{
    let n: usize = s.len();
    let mut a: usize = 0;
    while a < n && is_space(s[a])
        invariant
            n == s@.len(),
            a <= n,
            first_non_space_at(s@, 0) == first_non_space_at(s@, a as int),
        decreases n - a,
    {
        a = a + 1;
    }
    if a == n {
        let r: Vec<char> = Vec::new();
        assert(r@ =~= trim_spec(s@));
        return r;
    }
    let mut b: usize = n;
    while b > 0 && is_space(s[b - 1])
        invariant
            n == s@.len(),
            b <= n,
            last_non_space_before(s@, n as int) == last_non_space_before(s@, b as int),
        decreases b,
    {
        b = b - 1;
    }
    proof {
        lemma_first_non_space_bounds(s@, 0);
        lemma_last_non_space_bounds(s@, n as int);
    }
    let mut r: Vec<char> = Vec::new();
    let mut i: usize = a;
    while i < b
        invariant
            n == s@.len(),
            a <= i <= b <= n,
            r@ == s@.subrange(a as int, i as int),
        decreases b - i,
    {
        r.push(s[i]);
        i = i + 1;
        assert(r@ =~= s@.subrange(a as int, i as int));
    }
    assert(r@ =~= trim_spec(s@));
    r
}

/// What `split` on a one-character delimiter yields: always at least one
/// part; a delimiter at either end contributes an empty part.
pub open spec fn split_spec(s: Seq<char>, c: char) -> Seq<Seq<char>>
    decreases s.len(),
{
    if s.len() == 0 {
        seq![Seq::empty()]
    } else if s[0] == c {
        seq![Seq::<char>::empty()] + split_spec(s.drop_first(), c)
    } else {
        let rest = split_spec(s.drop_first(), c);
        seq![seq![s[0]] + rest[0]] + rest.drop_first()
    }
}

pub proof fn lemma_split_len(s: Seq<char>, c: char)
    ensures
        split_spec(s, c).len() >= 1,
    decreases s.len(),
{
    if s.len() != 0 {
        lemma_split_len(s.drop_first(), c);
    }
}

/// Splitting an undelimited string yields that one part.
pub proof fn lemma_split_no_delim(s: Seq<char>, c: char)
    requires
        forall|i: int| 0 <= i < s.len() ==> s[i] != c,
    ensures
        split_spec(s, c) =~~= seq![s],
    decreases s.len(),
{
    if s.len() != 0 {
        lemma_split_no_delim(s.drop_first(), c);
        assert(split_spec(s, c)[0] =~= seq![s[0]] + s.drop_first());
        assert(seq![s[0]] + s.drop_first() =~= s);
    }
}

/// Splitting distributes over a delimiter: the parts of `s + [c] + t` are the
/// parts of `s` followed by the parts of `t`.
pub proof fn lemma_split_concat(s: Seq<char>, t: Seq<char>, c: char)
    ensures
        split_spec(s + seq![c] + t, c) =~~= split_spec(s, c) + split_spec(t, c),
    decreases s.len(),
{
    let u = s + seq![c] + t;
    if s.len() == 0 {
        assert(u[0] == c);
        assert(u.drop_first() =~= t);
    } else {
        assert(u[0] == s[0]);
        assert(u.drop_first() =~= s.drop_first() + seq![c] + t);
        lemma_split_concat(s.drop_first(), t, c);
        lemma_split_len(s.drop_first(), c);
        if s[0] == c {
        } else {
            assert((split_spec(s.drop_first(), c) + split_spec(t, c))[0]
                == split_spec(s.drop_first(), c)[0]);
        }
    }
}

/// Joining parts back with the delimiter.
pub open spec fn join_spec(parts: Seq<Seq<char>>, c: char) -> Seq<char>
    decreases parts.len(),
{
    if parts.len() == 0 {
        Seq::empty()
    } else if parts.len() == 1 {
        parts[0]
    } else {
        parts[0] + seq![c] + join_spec(parts.drop_first(), c)
    }
}

/// `join` inverts `split`.
pub proof fn lemma_join_split(s: Seq<char>, c: char)
    ensures
        join_spec(split_spec(s, c), c) =~= s,
    decreases s.len(),
{
    if s.len() == 0 {
    } else {
        lemma_join_split(s.drop_first(), c);
        lemma_split_len(s.drop_first(), c);
        let rest = split_spec(s.drop_first(), c);
        if s[0] == c {
            let parts = seq![Seq::<char>::empty()] + rest;
            assert(parts.drop_first() =~= rest);
            assert(join_spec(parts, c) =~= seq![s[0]] + s.drop_first());
        } else {
            let parts = seq![seq![s[0]] + rest[0]] + rest.drop_first();
            if rest.len() == 1 {
                assert(join_spec(parts, c) =~= seq![s[0]] + rest[0]);
            } else {
                assert(parts.drop_first() =~= rest.drop_first());
                assert(join_spec(rest, c) == rest[0] + seq![c] + join_spec(rest.drop_first(), c));
            }
        }
        assert(seq![s[0]] + s.drop_first() =~= s);
    }
}

/// Appending one more part to a join inserts one delimiter.
pub proof fn lemma_join_push(parts: Seq<Seq<char>>, p: Seq<char>, c: char)
    requires
        parts.len() >= 1,
    ensures
        join_spec(parts.push(p), c) =~= join_spec(parts, c) + seq![c] + p,
    decreases parts.len(),
{
    if parts.len() == 1 {
        assert(parts.push(p).drop_first() =~= seq![p]);
        assert(join_spec(seq![p], c) == p);
        assert(parts.push(p)[0] == parts[0]);
    } else {
        lemma_join_push(parts.drop_first(), p, c);
        assert(parts.push(p).drop_first() =~= parts.drop_first().push(p));
        assert(parts.push(p)[0] == parts[0]);
    }
}

/// Split a character vector on a one-character delimiter.
pub fn split_chars(s: &Vec<char>, c: char) -> (r: Vec<Vec<char>>)
    ensures
        r.deep_view() == split_spec(s@, c),
{
    let n: usize = s.len();
    let mut done: Vec<Vec<char>> = Vec::new();
    let mut cur: Vec<char> = Vec::new();
    let mut i: usize = 0;
    proof {
        lemma_split_len(s@, c);
        assert(s@.skip(0) =~= s@);
        assert(prepend_first(Seq::<char>::empty(), split_spec(s@, c)) =~~= split_spec(s@, c));
    }
    while i < n
        invariant
            n == s@.len(),
            i <= n,
            split_spec(s@, c) =~~= done.deep_view() + prepend_first(cur@, split_spec(s@.skip(i as int), c)),
        decreases n - i,
    {
        proof {
            lemma_split_len(s@.skip(i as int + 1), c);
            assert(s@.skip(i as int).drop_first() =~= s@.skip(i as int + 1));
        }
        if s[i] == c {
            done.push(cur);
            cur = Vec::new();
            proof {
                assert(done.deep_view().drop_last() =~~= done.deep_view().drop_last());
            }
        } else {
            cur.push(s[i]);
        }
        i = i + 1;
        proof {
            let rest = split_spec(s@.skip(i as int), c);
            assert(done.deep_view() + prepend_first(cur@, rest)
                =~~= done.deep_view() + prepend_first(cur@, rest));
        }
    }
    proof {
        assert(s@.skip(n as int) =~= Seq::<char>::empty());
    }
    done.push(cur);
    proof {
        assert(done.deep_view() =~~= split_spec(s@, c));
    }
    done
}

/// The first part extended on the left with already-scanned characters.
pub open spec fn prepend_first(cur: Seq<char>, parts: Seq<Seq<char>>) -> Seq<Seq<char>> {
    seq![cur + parts[0]] + parts.drop_first()
}

/// What `str::split_whitespace` yields from position `i` on, with `cur` the
/// token under construction: maximal runs of non-whitespace characters.
pub open spec fn tokens_go(s: Seq<char>, i: int, cur: Seq<char>) -> Seq<Seq<char>>
    decreases s.len() - i,
{
    if i < 0 || i >= s.len() {
        if cur.len() > 0 {
            seq![cur]
        } else {
            Seq::empty()
        }
    } else if is_space_char(s[i]) {
        if cur.len() > 0 {
            seq![cur] + tokens_go(s, i + 1, Seq::empty())
        } else {
            tokens_go(s, i + 1, Seq::empty())
        }
    } else {
        tokens_go(s, i + 1, cur.push(s[i]))
    }
}

/// The whitespace-separated tokens of `s`.
pub open spec fn ws_tokens(s: Seq<char>) -> Seq<Seq<char>> {
    tokens_go(s, 0, Seq::empty())
}

/// Split a character vector into whitespace-separated tokens.
pub fn ws_token_vec(s: &Vec<char>) -> (r: Vec<Vec<char>>)
    ensures
        r.deep_view() == ws_tokens(s@),
{
    let n: usize = s.len();
    let mut done: Vec<Vec<char>> = Vec::new();
    let mut cur: Vec<char> = Vec::new();
    let mut i: usize = 0;
    while i < n
        invariant
            n == s@.len(),
            i <= n,
            ws_tokens(s@) =~~= done.deep_view() + tokens_go(s@, i as int, cur@),
        decreases n - i,
    {
        let ghost pre_done = done.deep_view();
        let ghost pre_cur = cur@;
        if is_space(s[i]) {
            if cur.len() > 0 {
                done.push(cur);
                cur = Vec::new();
                proof {
                    assert(done.deep_view() =~~= pre_done.push(pre_cur));
                    assert(pre_done + tokens_go(s@, i as int, pre_cur)
                        =~~= pre_done.push(pre_cur) + tokens_go(s@, i as int + 1, Seq::empty()));
                }
            } else {
                proof {
                    assert(pre_cur =~= Seq::<char>::empty());
                }
            }
        } else {
            cur.push(s[i]);
        }
        i = i + 1;
    }
    let ghost pre_done = done.deep_view();
    let ghost pre_cur = cur@;
    if cur.len() > 0 {
        done.push(cur);
        proof {
            assert(done.deep_view() =~~= pre_done.push(pre_cur));
            assert(pre_done + tokens_go(s@, n as int, pre_cur) =~~= pre_done.push(pre_cur));
        }
    } else {
        proof {
            assert(pre_cur =~= Seq::<char>::empty());
        }
    }
    proof {
        assert(done.deep_view() =~~= ws_tokens(s@));
    }
    done
}

pub open spec fn is_digit_char(c: char) -> bool {
    '0' <= c && c <= '9'
}

pub open spec fn digit_val(c: char) -> int {
    c as int - '0' as int
}

/// Numeric value of a digit string, most significant digit first.
pub open spec fn dec_val(s: Seq<char>) -> int
    decreases s.len(),
{
    if s.len() == 0 {
        0
    } else {
        dec_val(s.drop_last()) * 10 + digit_val(s.last())
    }
}

pub open spec fn all_digits(s: Seq<char>) -> bool {
    forall|i: int| 0 <= i < s.len() ==> is_digit_char(s[i])
}

/// What `str::parse::<u64>` accepts: an optional leading `+`, at least one
/// digit, and a value that fits in 64 bits.
pub open spec fn parses_as_u64(s: Seq<char>) -> bool {
    let d = if s.len() > 0 && s[0] == '+' {
        s.drop_first()
    } else {
        s
    };
    d.len() > 0 && all_digits(d) && dec_val(d) <= u64::MAX
}

/// The digits of `s`, after any leading `+`.
pub open spec fn u64_digits_of(s: Seq<char>) -> Seq<char> {
    if s.len() > 0 && s[0] == '+' {
        s.drop_first()
    } else {
        s
    }
}

proof fn lemma_dec_val_nonneg(s: Seq<char>)
    requires
        all_digits(s),
    ensures
        dec_val(s) >= 0,
    decreases s.len(),
{
    if s.len() > 0 {
        lemma_dec_val_nonneg(s.drop_last());
    }
}

proof fn lemma_dec_val_monotone(s: Seq<char>, i: int)
    requires
        all_digits(s),
        0 <= i <= s.len(),
    ensures
        dec_val(s) >= dec_val(s.subrange(0, i)),
    decreases s.len() - i,
{
    if i < s.len() {
        lemma_dec_val_monotone(s, i + 1);
        let p = s.subrange(0, i);
        let q = s.subrange(0, i + 1);
        assert(q.drop_last() =~= p);
        assert(all_digits(p)) by {
            assert(forall|j: int| 0 <= j < p.len() ==> p[j] == s[j]);
        }
        lemma_dec_val_nonneg(p);
        assert(dec_val(q) == dec_val(p) * 10 + digit_val(s[i]));
    } else {
        assert(s.subrange(0, i) =~= s);
    }
}

/// Parse a digit vector (no sign) as a 64-bit number.
fn parse_digits(d: &Vec<char>) -> (r: Option<u64>)
    ensures
        r is Some <==> (d@.len() > 0 && all_digits(d@) && dec_val(d@) <= u64::MAX),
        r matches Some(v) ==> v == dec_val(d@),
{
    let n: usize = d.len();
    if n == 0 {
        return None;
    }
    let mut acc: u64 = 0;
    let mut i: usize = 0;
    while i < n
        invariant
            n == d@.len(),
            i <= n,
            all_digits(d@.subrange(0, i as int)),
            acc == dec_val(d@.subrange(0, i as int)),
        decreases n - i,
    {
        let c = d[i];
        if !('0' <= c && c <= '9') {
            return None;
        }
        let dv: u64 = (c as u32 as u64) - 0x30;
        proof {
            assert(d@.subrange(0, i as int + 1).drop_last() =~= d@.subrange(0, i as int));
        }
        let next = match acc.checked_mul(10) {
            Some(m) => m.checked_add(dv),
            None => None,
        };
        match next {
            Some(v) => {
                acc = v;
                i = i + 1;
            },
            None => {
                proof {
                    if all_digits(d@) {
                        lemma_dec_val_monotone(d@, i as int + 1);
                        assert(dec_val(d@.subrange(0, i as int + 1)) == acc * 10 + dv);
                    }
                }
                return None;
            },
        }
    }
    proof {
        assert(d@.subrange(0, n as int) =~= d@);
    }
    Some(acc)
}

/// Parse a character vector as `str::parse::<u64>` would.
pub fn parse_u64_chars(s: &Vec<char>) -> (r: Option<u64>)
    ensures
        r is Some <==> parses_as_u64(s@),
        r matches Some(v) ==> v == dec_val(u64_digits_of(s@)),
{
    let n: usize = s.len();
    if n > 0 && s[0] == '+' {
        let mut d: Vec<char> = Vec::new();
        let mut i: usize = 1;
        while i < n
            invariant
                n == s@.len(),
                1 <= i <= n,
                d@ == s@.subrange(1, i as int),
            decreases n - i,
        {
            d.push(s[i]);
            i = i + 1;
            assert(d@ =~= s@.subrange(1, i as int));
        }
        proof {
            assert(d@ =~= s@.drop_first());
        }
        parse_digits(&d)
    } else {
        parse_digits(s)
    }
}

pub open spec fn starts_with(s: Seq<char>, p: Seq<char>) -> bool {
    s.len() >= p.len() && s.subrange(0, p.len() as int) == p
}

/// Does the character vector start with the given string slice?
pub fn chars_start_with(s: &Vec<char>, p: &str) -> (r: bool)
    ensures
        r == starts_with(s@, p@),
{
    let m: usize = p.unicode_len();
    if s.len() < m {
        return false;
    }
    let mut i: usize = 0;
    while i < m
        invariant
            m == p@.len(),
            m <= s@.len(),
            i <= m,
            forall|j: int| 0 <= j < i ==> s@[j] == p@[j],
        decreases m - i,
    {
        if s[i] != p.get_char(i) {
            return false;
        }
        i = i + 1;
    }
    proof {
        assert(s@.subrange(0, m as int) =~= p@);
    }
    true
}

/// Is the character vector equal to the given string slice?
pub fn chars_eq_str(v: &Vec<char>, s: &str) -> (r: bool)
    ensures
        r == (v@ == s@),
{
    let m: usize = s.unicode_len();
    if v.len() != m {
        return false;
    }
    let mut i: usize = 0;
    while i < m
        invariant
            m == s@.len(),
            m == v@.len(),
            i <= m,
            forall|j: int| 0 <= j < i ==> v@[j] == s@[j],
        decreases m - i,
    {
        if v[i] != s.get_char(i) {
            return false;
        }
        i = i + 1;
    }
    proof {
        assert(v@ =~= s@);
    }
    true
}

pub open spec fn contains_char(s: Seq<char>, c: char) -> bool {
    exists|i: int| 0 <= i < s.len() && s[i] == c
}

/// Does the character vector contain the character?
pub fn chars_contain(s: &Vec<char>, c: char) -> (r: bool)
    ensures
        r == contains_char(s@, c),
{
    let n: usize = s.len();
    let mut i: usize = 0;
    while i < n
        invariant
            n == s@.len(),
            i <= n,
            forall|j: int| 0 <= j < i ==> s@[j] != c,
        decreases n - i,
    {
        if s[i] == c {
            return true;
        }
        i = i + 1;
    }
    false
}

/// Index of the first occurrence of `c` at or after `i`; the length if there
/// is none.
pub open spec fn first_index_of(s: Seq<char>, c: char, i: int) -> int
    decreases s.len() - i,
{
    if i < 0 || i >= s.len() {
        s.len() as int
    } else if s[i] == c {
        i
    } else {
        first_index_of(s, c, i + 1)
    }
}

/// One past the last occurrence of `c` strictly before `i`; zero if there is
/// none.
pub open spec fn last_index_end(s: Seq<char>, c: char, i: int) -> int
    decreases i,
{
    if i <= 0 || i > s.len() {
        0
    } else if s[i - 1] == c {
        i
    } else {
        last_index_end(s, c, i - 1)
    }
}

pub proof fn lemma_first_index_bounds(s: Seq<char>, c: char, i: int)
    requires
        0 <= i <= s.len(),
    ensures
        i <= first_index_of(s, c, i) <= s.len(),
        first_index_of(s, c, i) < s.len() ==> s[first_index_of(s, c, i)] == c,
    decreases s.len() - i,
{
    if i < s.len() && s[i] != c {
        lemma_first_index_bounds(s, c, i + 1);
    }
}

pub proof fn lemma_last_index_end_bounds(s: Seq<char>, c: char, i: int)
    requires
        0 <= i <= s.len(),
    ensures
        0 <= last_index_end(s, c, i) <= i,
        last_index_end(s, c, i) > 0 ==> s[last_index_end(s, c, i) - 1] == c,
    decreases i,
{
    if i > 0 && s[i - 1] != c {
        lemma_last_index_end_bounds(s, c, i - 1);
    }
}

/// Index of the first occurrence of `c`, or the length if there is none.
pub fn find_char(s: &Vec<char>, c: char) -> (r: usize)
    ensures
        r == first_index_of(s@, c, 0),
{
    let n: usize = s.len();
    let mut i: usize = 0;
    while i < n
        invariant
            n == s@.len(),
            i <= n,
            first_index_of(s@, c, 0) == first_index_of(s@, c, i as int),
        decreases n - i,
    {
        if s[i] == c {
            return i;
        }
        i = i + 1;
    }
    n
}

/// Index one past the last occurrence of `c`, or zero if there is none.
pub fn rfind_char_end(s: &Vec<char>, c: char) -> (r: usize)
    ensures
        r == last_index_end(s@, c, s@.len() as int),
{
    let n: usize = s.len();
    let mut i: usize = n;
    while i > 0
        invariant
            n == s@.len(),
            i <= n,
            last_index_end(s@, c, n as int) == last_index_end(s@, c, i as int),
        decreases i,
    {
        if s[i - 1] == c {
            return i;
        }
        i = i - 1;
    }
    0
}

/// Join parts with a one-character delimiter.
pub fn join_chars(parts: &Vec<Vec<char>>, c: char) -> (r: Vec<char>)
    ensures
        r@ == join_spec(parts.deep_view(), c),
{
    let ghost pd = parts.deep_view();
    let n: usize = parts.len();
    let mut r: Vec<char> = Vec::new();
    if n == 0 {
        return r;
    }
    let mut i: usize = 0;
    while i < n
        invariant
            n == pd.len(),
            pd == parts.deep_view(),
            i <= n,
            i == 0 ==> r@.len() == 0,
            i > 0 ==> r@ == join_spec(pd.take(i as int), c),
        decreases n - i,
    {
        proof {
            assert(pd[i as int] == parts@[i as int]@);
        }
        if i > 0 {
            r.push(c);
        }
        let part = &parts[i];
        let m: usize = part.len();
        let mut k: usize = 0;
        let ghost base = r@;
        while k < m
            invariant
                m == part@.len(),
                k <= m,
                r@ == base + part@.subrange(0, k as int),
            decreases m - k,
        {
            r.push(part[k]);
            k = k + 1;
            assert(r@ =~= base + part@.subrange(0, k as int));
        }
        proof {
            assert(part@.subrange(0, m as int) =~= pd[i as int]);
            if i == 0 {
                assert(pd.take(1) =~= seq![pd[0]]);
                assert(r@ =~= join_spec(pd.take(1), c));
            } else {
                lemma_join_push(pd.take(i as int), pd[i as int], c);
                assert(pd.take(i as int).push(pd[i as int]) =~= pd.take(i as int + 1));
                assert(r@ =~= join_spec(pd.take(i as int), c) + seq![c] + pd[i as int]);
            }
        }
        i = i + 1;
    }
    proof {
        assert(pd.take(n as int) =~= pd);
    }
    r
}

/// Copy a subrange of a character vector.
pub fn subrange_chars(s: &Vec<char>, a: usize, b: usize) -> (r: Vec<char>)
    requires
        a <= b <= s@.len(),
    ensures
        r@ == s@.subrange(a as int, b as int),
{
    let mut r: Vec<char> = Vec::new();
    let mut i: usize = a;
    while i < b
        invariant
            a <= i <= b <= s@.len(),
            r@ == s@.subrange(a as int, i as int),
        decreases b - i,
    {
        r.push(s[i]);
        i = i + 1;
        assert(r@ =~= s@.subrange(a as int, i as int));
    }
    r
}

} // verus!
