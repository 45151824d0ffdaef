//! Rotation and retention decisions for the EVE log directory. Rotation
//! renames an oversized active log to `<basename>.<YYYYMMDDHHMMSS>` (UTC)
//! and recreates the active file; retention deletes archived logs older
//! than the watcher's watermark. Everything here is a decision on plain
//! values — sizes, names, epoch seconds; the caller stats, renames and
//! unlinks.

use vstd::prelude::*;

use vstd::arithmetic::div_mod::{lemma_fundamental_div_mod, lemma_fundamental_div_mod_converse};

use crate::rule_id::hex_digit;
use crate::text::{chars_eq_str, chars_start_with, chars_to_string, chars_vec, is_digit_char, str_eq, subrange_chars};

verus! {

pub open spec fn is_leap_year(y: int) -> bool {
    y % 4 == 0 && (y % 100 != 0 || y % 400 == 0)
}

pub open spec fn days_in_year(y: int) -> int {
    if is_leap_year(y) {
        366
    } else {
        365
    }
}

pub open spec fn days_in_month(y: int, m: int) -> int {
    if m == 2 {
        if is_leap_year(y) {
            29
        } else {
            28
        }
    } else if m == 4 || m == 6 || m == 9 || m == 11 {
        30
    } else {
        31
    }
}

/// Days from 1970-01-01 to the start of year `y`.
pub open spec fn days_before_year(y: int) -> int
    decreases y,
{
    if y <= 1970 {
        0
    } else {
        days_before_year(y - 1) + days_in_year(y - 1)
    }
}

/// Days from the start of the year to the start of month `m`.
pub open spec fn days_before_month(y: int, m: int) -> int
    decreases m,
{
    if m <= 1 {
        0
    } else {
        days_before_month(y, m - 1) + days_in_month(y, m - 1)
    }
}

/// A civil UTC date and time.
#[derive(Clone, Copy, PartialEq, Eq, Structural, Debug)]
pub struct CivilTime {
    pub year: u64,
    pub month: u64,
    pub day: u64,
    pub hour: u64,
    pub minute: u64,
    pub second: u64,
}

pub open spec fn valid_civil(t: CivilTime) -> bool {
    &&& 1970 <= t.year
    &&& 1 <= t.month <= 12
    &&& 1 <= t.day <= days_in_month(t.year as int, t.month as int)
    &&& t.hour < 24
    &&& t.minute < 60
    &&& t.second < 60
}

/// The epoch second a civil time names.
pub open spec fn epoch_of(t: CivilTime) -> int {
    (days_before_year(t.year as int) + days_before_month(t.year as int, t.month as int) + (
    t.day - 1)) * 86400 + t.hour * 3600 + t.minute * 60 + t.second
}

/// The first epoch second of year 10000, the first a 14-digit timestamp
/// cannot name.
pub const MAX_EPOCH_SECONDS: u64 = 253402300800;

proof fn lemma_div_step(y: int, d: int)
    requires
        y >= 1,
        d >= 1,
    ensures
        y / d - (y - 1) / d == (if y % d == 0 {
            1int
        } else {
            0int
        }),
{
    let q = (y - 1) / d;
    let r = (y - 1) % d;
    lemma_fundamental_div_mod(y - 1, d);
    vstd::arithmetic::div_mod::lemma_mod_pos_bound(y - 1, d);
    assert(d * q == q * d) by (nonlinear_arith);
    if r == d - 1 {
        assert((q + 1) * d == q * d + d) by (nonlinear_arith);
        lemma_fundamental_div_mod_converse(y, d, q + 1, 0);
    } else {
        lemma_fundamental_div_mod_converse(y, d, q, r + 1);
    }
}

proof fn lemma_mod_divides_chain(y: int, a: int, k: int)
    requires
        a >= 1,
        k >= 1,
        y % (a * k) == 0,
    ensures
        y % a == 0,
{
    assert(a * k >= 1) by (nonlinear_arith)
        requires
            a >= 1,
            k >= 1,
    ;
    let q = y / (a * k);
    lemma_fundamental_div_mod(y, a * k);
    assert(y == (a * k) * q);
    assert((a * k) * q == (k * q) * a) by (nonlinear_arith);
    lemma_fundamental_div_mod_converse(y, a, k * q, 0);
}

/// Closed form for the day count: 365 per year plus one per leap year.
proof fn lemma_days_before_year_closed(y: int)
    requires
        y >= 1970,
    ensures
        days_before_year(y) == 365 * (y - 1970) + ((y - 1) / 4 - 492) - ((y - 1) / 100 - 19) + (
        (y - 1) / 400 - 4),
    decreases y,
{
    if y == 1970 {
        lemma_fundamental_div_mod_converse(1969, 4, 492, 1);
        lemma_fundamental_div_mod_converse(1969, 100, 19, 69);
        lemma_fundamental_div_mod_converse(1969, 400, 4, 369);
    } else {
        lemma_days_before_year_closed(y - 1);
        let p = y - 1;
        lemma_div_step(p, 4);
        lemma_div_step(p, 100);
        lemma_div_step(p, 400);
        if p % 400 == 0 {
            lemma_mod_divides_chain(p, 100, 4);
            lemma_mod_divides_chain(p, 4, 100);
        }
        if p % 100 == 0 {
            lemma_mod_divides_chain(p, 4, 25);
        }
    }
}

/// The months of a year sum to its day count.
proof fn lemma_months_sum(y: int)
    ensures
        days_before_month(y, 13) == days_in_year(y),
{
    reveal_with_fuel(days_before_month, 14);
}

fn days_in_year_exec(y: u64) -> (r: u64)
    ensures
        r == days_in_year(y as int),
{
    if y % 4 == 0 && (y % 100 != 0 || y % 400 == 0) {
        366
    } else {
        365
    }
}

fn days_in_month_exec(y: u64, m: u64) -> (r: u64)
    ensures
        r == days_in_month(y as int, m as int),
{
    if m == 2 {
        if y % 4 == 0 && (y % 100 != 0 || y % 400 == 0) {
            29
        } else {
            28
        }
    } else if m == 4 || m == 6 || m == 9 || m == 11 {
        30
    } else {
        31
    }
}

/// The civil UTC time a given epoch second names. The result is the unique
/// valid civil time whose epoch second is `secs`.
#[verifier::loop_isolation(false)]
pub fn civil_from_epoch(secs: u64) -> (t: CivilTime)
    requires
        secs < MAX_EPOCH_SECONDS,
    ensures
        valid_civil(t),
        epoch_of(t) == secs,
        t.year <= 9999,
{
    let days: u64 = secs / 86400;
    let rem: u64 = secs % 86400;
    let hour: u64 = rem / 3600;
    let minute: u64 = (rem % 3600) / 60;
    let second: u64 = rem % 60;
    proof {
        lemma_fundamental_div_mod(secs as int, 86400);
        lemma_fundamental_div_mod(rem as int, 3600);
        lemma_fundamental_div_mod((rem % 3600) as int, 60);
        lemma_days_before_year_closed(10000);
        lemma_fundamental_div_mod_converse(9999, 4, 2499, 3);
        lemma_fundamental_div_mod_converse(9999, 100, 99, 99);
        lemma_fundamental_div_mod_converse(9999, 400, 24, 399);
        assert(days_before_year(10000) == 2932897);
        assert(days < 2932897);
    }
    let mut y: u64 = 1970;
    let mut dleft: u64 = days;
    while days_in_year_exec(y) <= dleft
        invariant
            1970 <= y <= 9999,
            days_before_year(y as int) + dleft == days,
        decreases dleft,
    {
        let diy = days_in_year_exec(y);
        dleft = dleft - diy;
        y = y + 1;
        proof {
            assert(days_before_year(y as int) + dleft == days);
            if y == 10000 {
                assert(days_before_year(10000) <= days);
                assert(false);
            }
        }
    }
    let ghost dy = dleft;
    proof {
        lemma_months_sum(y as int);
    }
    let mut m: u64 = 1;
    while days_in_month_exec(y, m) <= dleft
        invariant
            1 <= m <= 12,
            days_before_month(y as int, m as int) + dleft == dy,
            dy < days_in_year(y as int),
        decreases dleft,
    {
        let dim = days_in_month_exec(y, m);
        dleft = dleft - dim;
        m = m + 1;
        proof {
            assert(days_before_month(y as int, m as int) + dleft == dy);
            if m == 13 {
                assert(days_before_month(y as int, 13) <= dy);
                assert(false);
            }
        }
    }
    let day: u64 = dleft + 1;
    let t = CivilTime { year: y, month: m, day, hour, minute, second };
    proof {
        assert(epoch_of(t) == secs) by {
            assert(days_before_year(y as int) + days_before_month(y as int, m as int) + (day - 1)
                == days);
            assert(hour * 3600 + minute * 60 + second == rem);
            assert(days * 86400 + rem == secs);
        }
    }
    t
}

/// Two decimal digits, zero-padded.
pub open spec fn pad2(n: int) -> Seq<char> {
    seq![hex_digit(n / 10), hex_digit(n % 10)]
}

/// Four decimal digits, zero-padded.
pub open spec fn pad4(n: int) -> Seq<char> {
    seq![hex_digit(n / 1000), hex_digit((n / 100) % 10), hex_digit((n / 10) % 10), hex_digit(n % 10)]
}

/// The 14-character `YYYYMMDDHHMMSS` rendering of a civil time.
pub open spec fn timestamp_chars(t: CivilTime) -> Seq<char> {
    pad4(t.year as int) + pad2(t.month as int) + pad2(t.day as int) + pad2(t.hour as int) + pad2(
        t.minute as int,
    ) + pad2(t.second as int)
}

/// The timestamp is fourteen decimal digits.
pub proof fn lemma_timestamp_shape(t: CivilTime)
    requires
        valid_civil(t),
        t.year <= 9999,
    ensures
        timestamp_chars(t).len() == 14,
        forall|i: int| 0 <= i < 14 ==> is_digit_char(timestamp_chars(t)[i]),
{
    assert(forall|n: int| 0 <= n <= 9 ==> is_digit_char(#[trigger] hex_digit(n)));
    assert(t.year as int / 1000 <= 9) by {
        lemma_fundamental_div_mod(t.year as int, 1000);
    }
    assert(t.year as int / 1000 >= 0) by {
        lemma_fundamental_div_mod(t.year as int, 1000);
    }
    assert(t.month as int / 10 <= 9 && t.day as int / 10 <= 9 && t.hour as int / 10 <= 9
        && t.minute as int / 10 <= 9 && t.second as int / 10 <= 9) by {
        lemma_fundamental_div_mod(t.month as int, 10);
        lemma_fundamental_div_mod(t.day as int, 10);
        lemma_fundamental_div_mod(t.hour as int, 10);
        lemma_fundamental_div_mod(t.minute as int, 10);
        lemma_fundamental_div_mod(t.second as int, 10);
    }
    assert(forall|i: int| 0 <= i < 14 ==> is_digit_char(timestamp_chars(t)[i]));
}

fn dec_digit_exec(n: u64) -> (r: char)
    requires
        n < 10,
    ensures
        r == hex_digit(n as int),
{
    if n == 0 { '0' } else if n == 1 { '1' } else if n == 2 { '2' } else if n == 3 { '3' }
    else if n == 4 { '4' } else if n == 5 { '5' } else if n == 6 { '6' } else if n == 7 { '7' }
    else if n == 8 { '8' } else { '9' }
}

fn push_pad2(out: &mut Vec<char>, n: u64)
    requires
        n < 100,
    ensures
        final(out)@ == old(out)@ + pad2(n as int),
{
    out.push(dec_digit_exec(n / 10));
    out.push(dec_digit_exec(n % 10));
    assert(final(out)@ =~= old(out)@ + pad2(n as int));
}

/// Render a civil time as `YYYYMMDDHHMMSS`.
pub fn format_timestamp(t: &CivilTime) -> (r: String)
    requires
        valid_civil(*t),
        t.year <= 9999,
    ensures
        r@ == timestamp_chars(*t),
{
    let mut out: Vec<char> = Vec::new();
    out.push(dec_digit_exec(t.year / 1000));
    out.push(dec_digit_exec((t.year / 100) % 10));
    out.push(dec_digit_exec((t.year / 10) % 10));
    out.push(dec_digit_exec(t.year % 10));
    proof {
        lemma_fundamental_div_mod(t.year as int, 1000);
        assert(out@ =~= pad4(t.year as int));
    }
    push_pad2(&mut out, t.month);
    push_pad2(&mut out, t.day);
    push_pad2(&mut out, t.hour);
    push_pad2(&mut out, t.minute);
    push_pad2(&mut out, t.second);
    proof {
        assert(out@ =~= timestamp_chars(*t));
    }
    chars_to_string(&out)
}

/// The archive path's file name: the active log's basename, a dot, and the
/// rotation moment as fourteen digits.
pub open spec fn archive_name_chars(basename: Seq<char>, t: CivilTime) -> Seq<char> {
    basename + seq!['.'] + timestamp_chars(t)
}

/// Name the archive an active log rotates to at epoch second `now`.
pub fn archive_name(basename: &str, now: u64) -> (r: String)
    requires
        now < MAX_EPOCH_SECONDS,
    ensures
        exists|t: CivilTime|
            valid_civil(t) && epoch_of(t) == now && r@ == archive_name_chars(basename@, t),
{
    let t = civil_from_epoch(now);
    let ts = format_timestamp(&t);
    let r = String::from_str(basename).concat(".").concat(ts.as_str());
    proof {
        reveal_strlit(".");
        assert("."@ =~= seq!['.']);
        assert(r@ == archive_name_chars(basename@, t));
    }
    r
}

/// What the rotation check decides.
pub enum RotationStep {
    /// The active log is missing: create it (and its directory) empty.
    CreateActive,
    /// The active log is oversized: rename it to `archive`, recreate the
    /// active file empty.
    Rotate { archive: String },
    /// Nothing to do.
    LeaveAsIs,
}

pub const BYTES_PER_MIB: u64 = 1048576;

/// Decide the rotation check: a missing active file is recreated; one over
/// `max_log_size_mb` mebibytes rotates to the timestamped archive name; a
/// smaller one is left alone.
pub fn plan_rotation(
    active_exists: bool,
    active_size: u64,
    max_log_size_mb: u64,
    active_basename: &str,
    now: u64,
) -> (r: RotationStep)
    requires
        now < MAX_EPOCH_SECONDS,
        max_log_size_mb <= 0xffffffff,
    ensures
        !active_exists ==> r is CreateActive,
        (active_exists && active_size > max_log_size_mb * BYTES_PER_MIB) ==> (r matches
            RotationStep::Rotate { archive } && (exists|t: CivilTime|
            valid_civil(t) && epoch_of(t) == now && archive@ == archive_name_chars(
                active_basename@,
                t,
            ))),
        (active_exists && active_size <= max_log_size_mb * BYTES_PER_MIB) ==> r is LeaveAsIs,
{
    if !active_exists {
        return RotationStep::CreateActive;
    }
    let threshold: u64 = max_log_size_mb * BYTES_PER_MIB;
    if active_size > threshold {
        RotationStep::Rotate { archive: archive_name(active_basename, now) }
    } else {
        RotationStep::LeaveAsIs
    }
}

/// One directory entry as the retention sweep sees it: its basename,
/// whether it is a regular file, and its modification time in epoch
/// seconds.
pub struct LogDirEntry {
    pub name: String,
    pub is_file: bool,
    pub mtime: u64,
}

/// Mathematical shadow of [`LogDirEntry`].
pub struct LogDirEntryModel {
    pub name: Seq<char>,
    pub is_file: bool,
    pub mtime: u64,
}

impl View for LogDirEntry {
    type V = LogDirEntryModel;

    open spec fn view(&self) -> LogDirEntryModel {
        LogDirEntryModel { name: self.name@, is_file: self.is_file, mtime: self.mtime }
    }
}

impl DeepView for LogDirEntry {
    type V = LogDirEntryModel;

    open spec fn deep_view(&self) -> LogDirEntryModel {
        self.view()
    }
}

/// Does a basename match the archive glob `eve.*.json`?
pub open spec fn archive_glob(name: Seq<char>) -> bool {
    name.len() >= 9 && name.take(4) == "eve."@ && name.skip(name.len() - 5) == ".json"@
}

/// May the sweep delete this entry: a regular file, not the active log, not
/// the bare `eve.json`, matching the archive glob, last modified strictly
/// before the watermark.
pub open spec fn retention_victim(e: LogDirEntryModel, active: Seq<char>, watermark: u64) -> bool {
    &&& e.is_file
    &&& e.name != active
    &&& e.name != "eve.json"@
    &&& archive_glob(e.name)
    &&& e.mtime < watermark
}

/// The names the sweep deletes, in directory order.
pub open spec fn victims(es: Seq<LogDirEntryModel>, active: Seq<char>, watermark: u64) -> Seq<
    Seq<char>,
>
    decreases es.len(),
{
    if es.len() == 0 {
        Seq::empty()
    } else if retention_victim(es[0], active, watermark) {
        seq![es[0].name] + victims(es.drop_first(), active, watermark)
    } else {
        victims(es.drop_first(), active, watermark)
    }
}

pub proof fn lemma_victims_push(
    es: Seq<LogDirEntryModel>,
    e: LogDirEntryModel,
    active: Seq<char>,
    watermark: u64,
)
    ensures
        victims(es.push(e), active, watermark) =~~= victims(es, active, watermark) + (
        if retention_victim(e, active, watermark) {
            seq![e.name]
        } else {
            Seq::empty()
        }),
    decreases es.len(),
{
    let tail = if retention_victim(e, active, watermark) {
        seq![e.name]
    } else {
        Seq::<Seq<char>>::empty()
    };
    if es.len() == 0 {
        assert(es.push(e)[0] == e);
        assert(es.push(e).drop_first() =~= Seq::<LogDirEntryModel>::empty());
        assert(victims(Seq::<LogDirEntryModel>::empty(), active, watermark)
            == Seq::<Seq<char>>::empty());
        assert(victims(es, active, watermark) == Seq::<Seq<char>>::empty());
        assert(victims(es.push(e), active, watermark) =~~= victims(es, active, watermark) + tail);
    } else {
        assert(es.push(e)[0] == es[0]);
        assert(es.push(e).drop_first() =~= es.drop_first().push(e));
        lemma_victims_push(es.drop_first(), e, active, watermark);
        assert(victims(es.push(e), active, watermark) =~~= victims(es, active, watermark) + tail);
    }
}

/// The retention sweep's plan: the names to delete, in directory order,
/// exactly the entries the victim predicate admits.
#[verifier::loop_isolation(false)]
pub fn plan_retention(entries: &Vec<LogDirEntry>, active_name: &str, watermark: u64) -> (r: Vec<
    String,
>)
    ensures
        r@.map_values(|s: String| s@) == victims(entries.deep_view(), active_name@, watermark),
{
    let ghost ed = entries.deep_view();
    let n: usize = entries.len();
    let mut r: Vec<String> = Vec::new();
    let mut i: usize = 0;
    while i < n
        invariant
            i <= n,
            r@.map_values(|s: String| s@) =~~= victims(ed.take(i as int), active_name@, watermark),
        decreases n - i,
    {
        proof {
            assert(ed[i as int] == entries@[i as int]@);
        }
        let e = &entries[i];
        let nc = chars_vec(e.name.as_str());
        let mut take: bool = e.is_file && e.mtime < watermark;
        if take {
            if str_eq(e.name.as_str(), active_name) {
                take = false;
            }
        }
        if take {
            if chars_eq_str(&nc, "eve.json") {
                take = false;
            }
        }
        if take {
            if nc.len() < 9 || !chars_start_with(&nc, "eve.") {
                take = false;
            } else {
                let suffix = subrange_chars(&nc, nc.len() - 5, nc.len());
                proof {
                    assert(suffix@ =~= nc@.skip(nc@.len() as int - 5));
                }
                if !chars_eq_str(&suffix, ".json") {
                    take = false;
                }
            }
        }
        proof {
            reveal_strlit("eve.");
            assert(take == retention_victim(ed[i as int], active_name@, watermark));
        }
        if take {
            let name_copy = chars_to_string(&nc);
            r.push(name_copy);
        }
        i = i + 1;
        proof {
            lemma_victims_push(ed.take(i as int - 1), ed[i as int - 1], active_name@, watermark);
            assert(ed.take(i as int - 1).push(ed[i as int - 1]) =~= ed.take(i as int));
            assert(r@.map_values(|s: String| s@) =~~= victims(
                ed.take(i as int),
                active_name@,
                watermark,
            ));
        }
    }
    proof {
        assert(ed.take(n as int) =~= ed);
    }
    r
}

/// What the sweep never touches: every deleted name belonged to a regular
/// file older than the watermark, other than the active log, matching the
/// archive glob. In particular the active log's name is never deleted, and
/// no name outside the glob is.
pub proof fn lemma_retention_safe(es: Seq<LogDirEntryModel>, active: Seq<char>, watermark: u64)
    ensures
        forall|n: Seq<char>|
            #[trigger] victims(es, active, watermark).contains(n) ==> (exists|i: int|
                0 <= i < es.len() && es[i].name == n && es[i].is_file && es[i].mtime < watermark
                    && n != active && archive_glob(n)),
        !victims(es, active, watermark).contains(active),
        forall|n: Seq<char>| !archive_glob(n) ==> !victims(es, active, watermark).contains(n),
    decreases es.len(),
{
    let vs = victims(es, active, watermark);
    if es.len() > 0 {
        lemma_retention_safe(es.drop_first(), active, watermark);
        let tail = victims(es.drop_first(), active, watermark);
        assert forall|n: Seq<char>| #[trigger] vs.contains(n) implies (exists|i: int|
            0 <= i < es.len() && es[i].name == n && es[i].is_file && es[i].mtime < watermark && n
                != active && archive_glob(n)) by {
            let k = choose|k: int| 0 <= k < vs.len() && vs[k] == n;
            if retention_victim(es[0], active, watermark) && k == 0 {
                assert(0 <= 0 < es.len() && es[0].name == n && es[0].is_file && es[0].mtime
                    < watermark && n != active && archive_glob(n));
            } else {
                if retention_victim(es[0], active, watermark) {
                    assert(vs[k] == tail[k - 1]);
                    assert(tail.contains(n));
                } else {
                    assert(vs[k] == tail[k]);
                    assert(tail.contains(n));
                }
                let i0 = choose|i: int|
                    0 <= i < es.drop_first().len() && es.drop_first()[i].name == n
                        && es.drop_first()[i].is_file && es.drop_first()[i].mtime < watermark && n
                        != active && archive_glob(n);
                assert(es[i0 + 1] == es.drop_first()[i0]);
                assert(0 <= i0 + 1 < es.len() && es[i0 + 1].name == n && es[i0 + 1].is_file
                    && es[i0 + 1].mtime < watermark);
            }
        }
    }
    if vs.contains(active) {
        assert(false);
    }
    assert forall|n: Seq<char>| !archive_glob(n) implies !vs.contains(n) by {
        if vs.contains(n) {
            assert(archive_glob(n));
        }
    }
}

} // verus!
