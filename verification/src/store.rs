//! Pure content transformations of the rules file. The file is a flat text:
//! one rule per line, blank lines and `#` comments preserved on edit and
//! ignored for listing. Each function here maps the current file contents to
//! the listing, the lookup, the rewritten contents, or the append plan; the
//! surrounding process does the reading, locking and writing.

use vstd::prelude::*;

use crate::models::{Rule, RuleModel, RulesList};
use crate::options::{action_of, action_token, extract_option, opt_value_of};
use crate::rule_id::{id_of, rule_id_of_chars};
use crate::text::{
    chars_to_string, chars_vec, join_chars, join_spec, split_chars, split_spec, str_eq,
    trim_chars, trim_spec,
};
use crate::validate::{rule_error, rule_valid, validate_rule_syntax};

verus! {

/// A line the listing shows: its trimmed form is non-empty and is not a
/// comment.
pub open spec fn line_is_rule(l: Seq<char>) -> bool {
    trim_spec(l).len() > 0 && trim_spec(l)[0] != '#'
}

/// The projection of one stored line.
pub open spec fn rule_model_of(l: Seq<char>) -> RuleModel {
    RuleModel {
        id: id_of(l),
        content: l,
        sid: opt_value_of(l, "sid"@),
        msg: opt_value_of(l, "msg"@),
        action: action_of(l),
    }
}

/// The projections of the rule lines among `ls`, in order.
pub open spec fn rules_of_lines(ls: Seq<Seq<char>>) -> Seq<RuleModel>
    decreases ls.len(),
{
    if ls.len() == 0 {
        Seq::empty()
    } else if line_is_rule(ls[0]) {
        seq![rule_model_of(ls[0])] + rules_of_lines(ls.drop_first())
    } else {
        rules_of_lines(ls.drop_first())
    }
}

/// The rules a file with contents `c` lists.
pub open spec fn content_rules(c: Seq<char>) -> Seq<RuleModel> {
    rules_of_lines(split_spec(c, '\n'))
}

pub proof fn lemma_rules_of_push(ls: Seq<Seq<char>>, l: Seq<char>)
    ensures
        rules_of_lines(ls.push(l)) =~= rules_of_lines(ls) + (if line_is_rule(l) {
            seq![rule_model_of(l)]
        } else {
            Seq::empty()
        }),
    decreases ls.len(),
{
    let tail = if line_is_rule(l) {
        seq![rule_model_of(l)]
    } else {
        Seq::<RuleModel>::empty()
    };
    if ls.len() == 0 {
        assert(ls.push(l)[0] == l);
        assert(ls.push(l).drop_first() =~= Seq::<Seq<char>>::empty());
        assert(rules_of_lines(Seq::<Seq<char>>::empty()) == Seq::<RuleModel>::empty());
        assert(rules_of_lines(ls) == Seq::<RuleModel>::empty());
        assert(rules_of_lines(ls.push(l)) =~= rules_of_lines(ls) + tail);
    } else {
        assert(ls.push(l)[0] == ls[0]);
        assert(ls.push(l).drop_first() =~= ls.drop_first().push(l));
        lemma_rules_of_push(ls.drop_first(), l);
        assert(rules_of_lines(ls.drop_first().push(l)) =~= rules_of_lines(ls.drop_first()) + tail);
        assert(rules_of_lines(ls.push(l)) =~= rules_of_lines(ls) + tail);
    }
}

/// Every listed rule's content is one of the lines.
pub proof fn lemma_rules_content_from_lines(ls: Seq<Seq<char>>, k: int)
    requires
        0 <= k < rules_of_lines(ls).len(),
    ensures
        exists|j: int|
            0 <= j < ls.len() && line_is_rule(ls[j]) && rules_of_lines(ls)[k] == rule_model_of(
                ls[j],
            ),
    decreases ls.len(),
{
    if ls.len() > 0 {
        if line_is_rule(ls[0]) {
            if k == 0 {
                assert(line_is_rule(ls[0]) && rules_of_lines(ls)[0] == rule_model_of(ls[0]));
            } else {
                lemma_rules_content_from_lines(ls.drop_first(), k - 1);
                let j0 = choose|j: int|
                    0 <= j < ls.drop_first().len() && line_is_rule(ls.drop_first()[j])
                        && rules_of_lines(ls.drop_first())[k - 1] == rule_model_of(
                        ls.drop_first()[j],
                    );
                assert(ls[j0 + 1] == ls.drop_first()[j0]);
            }
        } else {
            lemma_rules_content_from_lines(ls.drop_first(), k);
            let j0 = choose|j: int|
                0 <= j < ls.drop_first().len() && line_is_rule(ls.drop_first()[j])
                    && rules_of_lines(ls.drop_first())[k] == rule_model_of(ls.drop_first()[j]);
            assert(ls[j0 + 1] == ls.drop_first()[j0]);
        }
    }
}

/// Build the projection of one stored line.
fn rule_from_line(line: &Vec<char>) -> (r: Rule)
    ensures
        r@ == rule_model_of(line@),
{
    let content = chars_to_string(line);
    let id = rule_id_of_chars(line);
    let sid = extract_option(content.as_str(), "sid");
    let msg = extract_option(content.as_str(), "msg");
    let action = action_token(line);
    Rule { id, content, sid, msg, action }
}

/// List the rules in the given file contents: lines whose trimmed form is
/// empty or starts with `#` are skipped; the rest are projected in file
/// order. The count equals the number of listed rules.
#[verifier::loop_isolation(false)]
pub fn rules_in(content: &str) -> (r: RulesList)
    ensures
        r.rules@.map_values(|x: Rule| x@) == content_rules(content@),
        r.count == r.rules@.len(),
{
    let cc = chars_vec(content);
    let lines = split_chars(&cc, '\n');
    let ghost ld = lines.deep_view();
    let n: usize = lines.len();
    let mut rules: Vec<Rule> = Vec::new();
    let mut i: usize = 0;
    while i < n
        invariant
            i <= n,
            rules@.map_values(|x: Rule| x@) =~= rules_of_lines(ld.take(i as int)),
        decreases n - i,
    {
        proof {
            assert(ld[i as int] == lines@[i as int]@);
        }
        let line = &lines[i];
        let tl = trim_chars(line);
        if tl.len() > 0 && tl[0] != '#' {
            rules.push(rule_from_line(line));
        }
        i = i + 1;
        proof {
            lemma_rules_of_push(ld.take(i as int - 1), ld[i as int - 1]);
            assert(ld.take(i as int - 1).push(ld[i as int - 1]) =~= ld.take(i as int));
            assert(rules@.map_values(|x: Rule| x@) =~= rules_of_lines(ld.take(i as int)));
        }
    }
    proof {
        assert(ld.take(n as int) =~= ld);
    }
    let count = rules.len();
    RulesList { rules, count }
}

/// The first projection with the given identifier, scanning from `i` on.
pub open spec fn first_rule_with_id(ls: Seq<Seq<char>>, i: int, id: Seq<char>) -> Option<RuleModel>
    decreases ls.len() - i,
{
    if i < 0 || i >= ls.len() {
        None
    } else if line_is_rule(ls[i]) && id_of(ls[i]) == id {
        Some(rule_model_of(ls[i]))
    } else {
        first_rule_with_id(ls, i + 1, id)
    }
}

/// Look up the first stored rule whose derived identifier equals `rule_id`.
#[verifier::loop_isolation(false)]
pub fn find_rule(content: &str, rule_id: &str) -> (r: Option<Rule>)
    ensures
        r is Some <==> first_rule_with_id(split_spec(content@, '\n'), 0, rule_id@) is Some,
        r matches Some(x) ==> first_rule_with_id(split_spec(content@, '\n'), 0, rule_id@)
            == Some(x@),
{
    let cc = chars_vec(content);
    let lines = split_chars(&cc, '\n');
    let ghost ld = lines.deep_view();
    let n: usize = lines.len();
    let mut i: usize = 0;
    while i < n
        invariant
            i <= n,
            first_rule_with_id(ld, 0, rule_id@) == first_rule_with_id(ld, i as int, rule_id@),
        decreases n - i,
    {
        proof {
            assert(ld[i as int] == lines@[i as int]@);
        }
        let line = &lines[i];
        let tl = trim_chars(line);
        if tl.len() > 0 && tl[0] != '#' {
            let cand = rule_id_of_chars(line);
            if str_eq(cand.as_str(), rule_id) {
                return Some(rule_from_line(line));
            }
        }
        i = i + 1;
    }
    None
}

/// Is a line the one the delete removes: a rule line whose derived
/// identifier equals the target.
pub open spec fn removable(l: Seq<char>, id: Seq<char>) -> bool {
    line_is_rule(l) && id_of(l) == id
}

/// The lines that survive a delete, in order: comments and blank lines
/// always, rule lines unless their identifier matches.
pub open spec fn kept_lines(ls: Seq<Seq<char>>, id: Seq<char>) -> Seq<Seq<char>>
    decreases ls.len(),
{
    if ls.len() == 0 {
        Seq::empty()
    } else if removable(ls[0], id) {
        kept_lines(ls.drop_first(), id)
    } else {
        seq![ls[0]] + kept_lines(ls.drop_first(), id)
    }
}

pub proof fn lemma_kept_push(ls: Seq<Seq<char>>, l: Seq<char>, id: Seq<char>)
    ensures
        kept_lines(ls.push(l), id) =~~= kept_lines(ls, id) + (if removable(l, id) {
            Seq::empty()
        } else {
            seq![l]
        }),
    decreases ls.len(),
{
    let tail = if removable(l, id) {
        Seq::<Seq<char>>::empty()
    } else {
        seq![l]
    };
    if ls.len() == 0 {
        assert(ls.push(l)[0] == l);
        assert(ls.push(l).drop_first() =~= Seq::<Seq<char>>::empty());
        assert(kept_lines(Seq::<Seq<char>>::empty(), id) == Seq::<Seq<char>>::empty());
        assert(kept_lines(ls, id) == Seq::<Seq<char>>::empty());
        assert(kept_lines(ls.push(l), id) =~~= kept_lines(ls, id) + tail);
    } else {
        assert(ls.push(l)[0] == ls[0]);
        assert(ls.push(l).drop_first() =~= ls.drop_first().push(l));
        lemma_kept_push(ls.drop_first(), l, id);
        assert(kept_lines(ls.drop_first().push(l), id) =~~= kept_lines(ls.drop_first(), id) + tail);
        assert(kept_lines(ls.push(l), id) =~~= kept_lines(ls, id) + tail);
    }
}

/// Rewrite the file contents without the rules of the given identifier.
/// `None` when no stored rule carries it; otherwise the surviving lines
/// joined back with newlines, comments and blanks preserved.
#[verifier::loop_isolation(false)]
pub fn remove_rule(content: &str, rule_id: &str) -> (r: Option<String>)
    ensures
        r is Some <==> (exists|j: int|
            0 <= j < split_spec(content@, '\n').len() && removable(
                split_spec(content@, '\n')[j],
                rule_id@,
            )),
        r matches Some(s) ==> s@ == join_spec(
            kept_lines(split_spec(content@, '\n'), rule_id@),
            '\n',
        ),
{
    let cc = chars_vec(content);
    let lines = split_chars(&cc, '\n');
    let ghost ld = lines.deep_view();
    let n: usize = lines.len();
    let mut kept: Vec<Vec<char>> = Vec::new();
    let mut found: bool = false;
    let mut i: usize = 0;
    while i < n
        invariant
            i <= n,
            kept.deep_view() =~~= kept_lines(ld.take(i as int), rule_id@),
            found <==> (exists|j: int| 0 <= j < i && removable(ld[j], rule_id@)),
        decreases n - i,
    {
        proof {
            assert(ld[i as int] == lines@[i as int]@);
        }
        let line = &lines[i];
        let tl = trim_chars(line);
        let mut drop_line: bool = false;
        if tl.len() > 0 && tl[0] != '#' {
            let cand = rule_id_of_chars(line);
            if str_eq(cand.as_str(), rule_id) {
                drop_line = true;
                found = true;
                proof {
                    assert(removable(ld[i as int], rule_id@));
                }
            }
        }
        if !drop_line {
            let copy = lines[i].clone();
            kept.push(copy);
        }
        i = i + 1;
        proof {
            lemma_kept_push(ld.take(i as int - 1), ld[i as int - 1], rule_id@);
            assert(ld.take(i as int - 1).push(ld[i as int - 1]) =~= ld.take(i as int));
            assert(kept.deep_view() =~~= kept_lines(ld.take(i as int), rule_id@));
        }
    }
    proof {
        assert(ld.take(n as int) =~= ld);
    }
    if !found {
        return None;
    }
    let joined = join_chars(&kept, '\n');
    Some(chars_to_string(&joined))
}

pub proof fn lemma_rules_of_concat(a: Seq<Seq<char>>, b: Seq<Seq<char>>)
    ensures
        rules_of_lines(a + b) =~= rules_of_lines(a) + rules_of_lines(b),
    decreases a.len(),
{
    if a.len() == 0 {
        assert(a + b =~= b);
    } else {
        assert((a + b)[0] == a[0]);
        assert((a + b).drop_first() =~= a.drop_first() + b);
        lemma_rules_of_concat(a.drop_first(), b);
    }
}

pub proof fn lemma_kept_concat(a: Seq<Seq<char>>, b: Seq<Seq<char>>, id: Seq<char>)
    ensures
        kept_lines(a + b, id) =~~= kept_lines(a, id) + kept_lines(b, id),
    decreases a.len(),
{
    if a.len() == 0 {
        assert(a + b =~= b);
    } else {
        assert((a + b)[0] == a[0]);
        assert((a + b).drop_first() =~= a.drop_first() + b);
        lemma_kept_concat(a.drop_first(), b, id);
    }
}

/// A delete that matches no line leaves every line in place.
pub proof fn lemma_kept_identity(ls: Seq<Seq<char>>, id: Seq<char>)
    requires
        forall|j: int| 0 <= j < ls.len() ==> !removable(ls[j], id),
    ensures
        kept_lines(ls, id) =~~= ls,
    decreases ls.len(),
{
    if ls.len() > 0 {
        lemma_kept_identity(ls.drop_first(), id);
    }
}

/// The line as it is written to the file: the rule text with exactly one
/// newline at its end.
pub open spec fn appended_text_of(r: Seq<char>) -> Seq<char> {
    if r.len() > 0 && r.last() == '\n' {
        r
    } else {
        r.push('\n')
    }
}

/// The line as it rests in the file: the rule text without its trailing
/// newline.
pub open spec fn stored_line_of(r: Seq<char>) -> Seq<char> {
    if r.len() > 0 && r.last() == '\n' {
        r.drop_last()
    } else {
        r
    }
}

/// How an append reshapes the line structure of a well-formed file: the old
/// lines lose their final empty line and gain the new rule line and a fresh
/// empty line.
pub proof fn lemma_split_after_append(c: Seq<char>, r: Seq<char>)
    requires
        c.len() == 0 || c.last() == '\n',
        forall|i: int| 0 <= i < stored_line_of(r).len() ==> stored_line_of(r)[i] != '\n',
    ensures
        split_spec(c + appended_text_of(r), '\n') =~~= split_spec(c, '\n').drop_last() + seq![
            stored_line_of(r),
            Seq::<char>::empty(),
        ],
        split_spec(c, '\n') =~~= split_spec(c, '\n').drop_last() + seq![Seq::<char>::empty()],
{
    let line = stored_line_of(r);
    assert(appended_text_of(r) =~= line + seq!['\n']);
    crate::text::lemma_split_no_delim(line, '\n');
    assert(split_spec(Seq::<char>::empty(), '\n') =~= seq![Seq::<char>::empty()]);
    if c.len() == 0 {
        assert(c + appended_text_of(r) =~= line + seq!['\n'] + Seq::<char>::empty());
        crate::text::lemma_split_concat(line, Seq::empty(), '\n');
        assert(split_spec(c, '\n') =~= seq![Seq::<char>::empty()]);
        assert(split_spec(c, '\n').drop_last() =~~= Seq::<Seq<char>>::empty());
    } else {
        let c1 = c.drop_last();
        assert(c =~= c1 + seq!['\n'] + Seq::<char>::empty());
        crate::text::lemma_split_concat(c1, Seq::empty(), '\n');
        assert(split_spec(c, '\n') =~~= split_spec(c1, '\n') + seq![Seq::<char>::empty()]);
        let t = line + seq!['\n'] + Seq::<char>::empty();
        assert(c + appended_text_of(r) =~= c1 + seq!['\n'] + t);
        crate::text::lemma_split_concat(c1, t, '\n');
        crate::text::lemma_split_concat(line, Seq::empty(), '\n');
        assert(split_spec(t, '\n') =~~= seq![line, Seq::<char>::empty()]);
        assert(split_spec(c, '\n').drop_last() =~~= split_spec(c1, '\n'));
    }
}

/// Appending a valid, non-comment, single-line rule to a well-formed file
/// extends the listing by exactly that rule's projection, at the end, and
/// leaves every earlier entry in place.
pub proof fn lemma_append_then_list(c: Seq<char>, r: Seq<char>)
    requires
        c.len() == 0 || c.last() == '\n',
        rule_valid(r),
        line_is_rule(stored_line_of(r)),
        forall|i: int| 0 <= i < stored_line_of(r).len() ==> stored_line_of(r)[i] != '\n',
    ensures
        content_rules(c + appended_text_of(r)) =~= content_rules(c).push(
            rule_model_of(stored_line_of(r)),
        ),
{
    let line = stored_line_of(r);
    lemma_split_after_append(c, r);
    let pre = split_spec(c, '\n').drop_last();
    lemma_rules_of_concat(pre, seq![line, Seq::<char>::empty()]);
    lemma_rules_of_concat(pre, seq![Seq::<char>::empty()]);
    assert(!line_is_rule(Seq::<char>::empty()));
    let two = seq![line, Seq::<char>::empty()];
    assert(two[0] == line);
    assert(two.drop_first() =~= seq![Seq::<char>::empty()]);
    assert(seq![Seq::<char>::empty()][0] == Seq::<char>::empty());
    assert(seq![Seq::<char>::empty()].drop_first() =~= Seq::<Seq<char>>::empty());
    assert(rules_of_lines(Seq::<Seq<char>>::empty()) =~= Seq::<RuleModel>::empty());
    assert(rules_of_lines(seq![Seq::<char>::empty()]) =~= Seq::<RuleModel>::empty());
    assert(rules_of_lines(two) =~= seq![rule_model_of(line)]);
    assert(content_rules(c + appended_text_of(r)) =~= rules_of_lines(pre) + seq![
        rule_model_of(line),
    ]);
    assert(content_rules(c) =~= rules_of_lines(pre));
}

/// After appending a rule whose line the file did not hold, the listing has
/// exactly one entry with that content, and it carries the line's derived
/// identifier.
pub proof fn lemma_append_then_list_exactly_one(c: Seq<char>, r: Seq<char>)
    requires
        c.len() == 0 || c.last() == '\n',
        rule_valid(r),
        line_is_rule(stored_line_of(r)),
        forall|i: int| 0 <= i < stored_line_of(r).len() ==> stored_line_of(r)[i] != '\n',
        forall|j: int| 0 <= j < split_spec(c, '\n').len() ==> split_spec(c, '\n')[j]
            != stored_line_of(r),
    ensures
        exists|k: int|
            0 <= k < content_rules(c + appended_text_of(r)).len() && content_rules(
                c + appended_text_of(r),
            )[k].content == stored_line_of(r) && content_rules(c + appended_text_of(r))[k].id
                == id_of(stored_line_of(r)),
        forall|k1: int, k2: int|
            (0 <= k1 < content_rules(c + appended_text_of(r)).len() && 0 <= k2 < content_rules(
                c + appended_text_of(r),
            ).len() && content_rules(c + appended_text_of(r))[k1].content == stored_line_of(r)
                && content_rules(c + appended_text_of(r))[k2].content == stored_line_of(r)) ==> k1
                == k2,
{
    let line = stored_line_of(r);
    lemma_append_then_list(c, r);
    let old_rules = content_rules(c);
    let rs = content_rules(c + appended_text_of(r));
    let last = old_rules.len() as int;
    assert(rs[last] == rule_model_of(line));
    assert(rs[last].content == line && rs[last].id == id_of(line));
    assert forall|k: int| 0 <= k < last implies rs[k].content != line by {
        assert(rs[k] == old_rules[k]);
        lemma_rules_content_from_lines(split_spec(c, '\n'), k);
    }
}

/// Appending a rule and deleting it by its identifier restores the former
/// file contents exactly, comments and blank lines included, provided no
/// pre-existing rule line carried that identifier.
pub proof fn lemma_append_then_delete(c: Seq<char>, r: Seq<char>)
    requires
        c.len() == 0 || c.last() == '\n',
        rule_valid(r),
        line_is_rule(stored_line_of(r)),
        forall|i: int| 0 <= i < stored_line_of(r).len() ==> stored_line_of(r)[i] != '\n',
        forall|j: int| 0 <= j < split_spec(c, '\n').len() ==> !removable(
            split_spec(c, '\n')[j],
            id_of(stored_line_of(r)),
        ),
    ensures
        exists|j: int|
            0 <= j < split_spec(c + appended_text_of(r), '\n').len() && removable(
                split_spec(c + appended_text_of(r), '\n')[j],
                id_of(stored_line_of(r)),
            ),
        join_spec(
            kept_lines(split_spec(c + appended_text_of(r), '\n'), id_of(stored_line_of(r))),
            '\n',
        ) =~= c,
{
    let line = stored_line_of(r);
    let id = id_of(line);
    lemma_split_after_append(c, r);
    let pre = split_spec(c, '\n').drop_last();
    let nl = split_spec(c + appended_text_of(r), '\n');
    let w = pre.len() as int;
    assert(nl[w] == line);
    assert(removable(nl[w], id));
    lemma_kept_concat(pre, seq![line, Seq::<char>::empty()], id);
    let two = seq![line, Seq::<char>::empty()];
    assert(two[0] == line);
    assert(removable(line, id));
    assert(two.drop_first() =~= seq![Seq::<char>::empty()]);
    assert(seq![Seq::<char>::empty()][0] == Seq::<char>::empty());
    assert(seq![Seq::<char>::empty()].drop_first() =~= Seq::<Seq<char>>::empty());
    assert(!line_is_rule(Seq::<char>::empty()));
    assert(kept_lines(Seq::<Seq<char>>::empty(), id) =~~= Seq::<Seq<char>>::empty());
    assert(kept_lines(seq![Seq::<char>::empty()], id) =~~= seq![Seq::<char>::empty()]);
    assert(kept_lines(two, id) =~~= seq![Seq::<char>::empty()]);
    assert forall|j: int| 0 <= j < pre.len() implies !removable(pre[j], id) by {
        assert(pre[j] == split_spec(c, '\n')[j]);
    }
    lemma_kept_identity(pre, id);
    assert(kept_lines(nl, id) =~~= pre + seq![Seq::<char>::empty()]);
    assert(kept_lines(nl, id) =~~= split_spec(c, '\n'));
    crate::text::lemma_join_split(c, '\n');
}

/// The contents an absent file stands for.
pub open spec fn opt_content(existing: Option<&String>) -> Seq<char> {
    match existing {
        Some(c) => c@,
        None => Seq::empty(),
    }
}

/// The byte size of the current file.
pub open spec fn opt_byte_len(existing: Option<&String>) -> nat {
    match existing {
        Some(c) => vstd::utf8::encode_utf8(c@).len(),
        None => 0,
    }
}

/// The size above which an append first copies the file aside.
pub const BACKUP_THRESHOLD_BYTES: u64 = 1000000;

/// What a successful append writes: the new file contents, the backup to
/// take first (the old contents, byte for byte, when the file was over the
/// backup threshold), and the identifier of the appended line.
#[derive(Debug)]
pub struct AppendPlan {
    pub new_content: String,
    pub backup: Option<String>,
    pub rule_id: String,
}

/// Plan an append: validate the rule, and on success give the new file
/// contents (old contents plus the rule line and a final newline), the
/// backup of an oversized file, and the derived identifier of the line.
pub fn append_rule(existing: Option<&String>, rule_content: &str) -> (r: Result<AppendPlan, String>)
    ensures
        r is Ok <==> rule_valid(rule_content@),
        r matches Err(m) ==> rule_error(rule_content@) == Some(m@),
        r matches Ok(p) ==> p.new_content@ == opt_content(existing) + appended_text_of(
            rule_content@,
        ),
        r matches Ok(p) ==> p.rule_id@ == id_of(stored_line_of(rule_content@)),
        r matches Ok(p) ==> p.backup.deep_view() == (if opt_byte_len(existing)
            > BACKUP_THRESHOLD_BYTES {
            Some(opt_content(existing))
        } else {
            None::<Seq<char>>
        }),
{
    if let Err(m) = validate_rule_syntax(rule_content) {
        return Err(m);
    }
    let backup = match existing {
        Some(c) => {
            let bytes = c.as_str().as_bytes_vec();
            if bytes.len() > 1000000 {
                Some((*c).clone())
            } else {
                None
            }
        },
        None => None,
    };
    let base = match existing {
        Some(c) => (*c).clone(),
        None => String::new(),
    };
    let rc = chars_vec(rule_content);
    let ends_nl = rc.len() > 0 && rc[rc.len() - 1] == '\n';
    let mut new_content = base.concat(rule_content);
    if !ends_nl {
        crate::text::push_char(&mut new_content, '\n');
    }
    let stored = if ends_nl {
        crate::text::subrange_chars(&rc, 0, rc.len() - 1)
    } else {
        rc
    };
    proof {
        assert(stored@ =~= stored_line_of(rule_content@));
        assert(new_content@ =~= opt_content(existing) + appended_text_of(rule_content@));
    }
    let rule_id = rule_id_of_chars(&stored);
    Ok(AppendPlan { new_content, backup, rule_id })
}

} // verus!
