//! Recording every boot: at logon the program starts itself once, notes how
//! long ago the boot began, and keeps the last records.
//!
//! A record says where its start came from: the system log (measured) or
//! the kernel's tick count (estimated, wrong after a fast-startup boot).
//! Two records of one boot session are merged, keeping the earliest
//! observation; the history keeps the newest records only.

use vstd::prelude::*;
use crate::text::{chars_of, compare_lex, compare_lex_exec, compare_int, Order};

verus! {

/// How many records are kept.
pub const MAX_RECORDS: usize = 50;

/// Two starts at most this many whole seconds apart are one boot session.
pub const SAME_SESSION_TOLERANCE_SECS: i64 = 120;

/// The file the records are kept in, in the program's data directory.
pub const RECORDS_FILE: &'static str = "boot-records.json";

/// The start was confirmed by the system log (measured).
pub const BASIS_LOG: &'static str = "log";

/// The start was reckoned from the tick count (an estimate).
pub const BASIS_TICK: &'static str = "tick";

/// The source of every record written here.
pub const SOURCE_MARKER: &'static str = "marker";

/// One boot record.
#[derive(Debug, Clone)]
pub struct BootRecordEntry {
    /// When the boot began, RFC 3339.
    pub boot_started_at: String,
    /// When the record was taken, RFC 3339.
    pub recorded_at: String,
    /// Milliseconds from the start of the boot to the record.
    pub total_ms: u64,
    /// Always `marker`.
    pub source: String,
    /// `log` or `tick`: how the start was found.
    pub basis: String,
}

/// A record as start, time of record, total, source and basis.
pub type RecView = (Seq<char>, Seq<char>, u64, Seq<char>, Seq<char>);

pub open spec fn rec_view(e: BootRecordEntry) -> RecView {
    (e.boot_started_at@, e.recorded_at@, e.total_ms, e.source@, e.basis@)
}

pub open spec fn rec_views(v: Seq<BootRecordEntry>) -> Seq<RecView> {
    v.map_values(|e: BootRecordEntry| rec_view(e))
}

/// The basis of a record that does not say: the tick count, since old
/// records had no other way, and an unproven start is not a measurement.
pub fn default_basis() -> (r: String)
    ensures
        r@ == BASIS_TICK@,
{
    let mut s = String::new();
    crate::text::push_str(&mut s, BASIS_TICK);
    s
}

// ───────────────────────── instants ─────────────────────────

/// The instant an RFC 3339 text names, as whole seconds since the Unix
/// epoch and the nanoseconds after them; `None` when it is not RFC 3339.
pub uninterp spec fn rfc3339_instant(text: Seq<char>) -> Option<(i64, u32)>;

/// `chrono::DateTime::parse_from_rfc3339`, read as its UTC timestamp and
/// the nanoseconds within the second. The result is named, not described:
/// it depends on the text alone.
#[verifier::external_body]
pub(crate) fn parse_instant(text: &str) -> (r: Option<(i64, u32)>)
    ensures
        r == rfc3339_instant(text@),
{
    chrono::DateTime::parse_from_rfc3339(text).ok().map(|t| (t.timestamp(), t.timestamp_subsec_nanos()))
}

/// Nanoseconds from `y` to `x`.
pub open spec fn nanos_between(x: (i64, u32), y: (i64, u32)) -> int {
    (x.0 - y.0) * 1_000_000_000 + (x.1 - y.1)
}

/// Whole seconds of a span, rounded toward zero.
pub open spec fn whole_seconds(nanos: int) -> int {
    if nanos >= 0 {
        nanos / 1_000_000_000
    } else {
        -((-nanos) / 1_000_000_000)
    }
}

/// Two starts are one session when both are known and at most the
/// tolerance apart in whole seconds.
pub open spec fn same_session_spec(x: Option<(i64, u32)>, y: Option<(i64, u32)>) -> bool {
    match (x, y) {
        (Some(a), Some(b)) => {
            let s = whole_seconds(nanos_between(a, b));
            -SAME_SESSION_TOLERANCE_SECS <= s <= SAME_SESSION_TOLERANCE_SECS
        },
        _ => false,
    }
}

/// Whether two parsed starts belong to one boot session; an unknown start
/// never does, so no real history is merged away.
pub fn same_session_instants(x: Option<(i64, u32)>, y: Option<(i64, u32)>) -> (r: bool)
    ensures
        r == same_session_spec(x, y),
{
    match (x, y) {
        (Some(a), Some(b)) => {
            let d: i128 = (a.0 as i128 - b.0 as i128) * 1_000_000_000i128 + (a.1 as i128 - b.1 as i128);
            let s: i128 = if d >= 0 {
                d / 1_000_000_000i128
            } else {
                -((-d) / 1_000_000_000i128)
            };
            -120i128 <= s && s <= 120i128
        },
        _ => false,
    }
}

/// Whether two records belong to one boot session: both starts parse and
/// lie at most `SAME_SESSION_TOLERANCE_SECS` whole seconds apart.
pub fn same_boot_session(a: &BootRecordEntry, b: &BootRecordEntry) -> (r: bool)
    ensures
        r == same_session_spec(rfc3339_instant(a.boot_started_at@), rfc3339_instant(b.boot_started_at@)),
{
    same_session_instants(parse_instant(a.boot_started_at.as_str()), parse_instant(b.boot_started_at.as_str()))
}

// ───────────────────────── order of records ─────────────────────────

/// Instants compare by second, then by nanosecond.
pub open spec fn instant_order(x: (i64, u32), y: (i64, u32)) -> Order {
    if x.0 < y.0 {
        Order::Less
    } else if x.0 > y.0 {
        Order::Greater
    } else {
        compare_int(x.1 as int, y.1 as int)
    }
}

/// Starts compare as instants when both parse (so that offsets do not
/// matter), else as text.
pub open spec fn start_order_spec(x: Option<(i64, u32)>, y: Option<(i64, u32)>, a: Seq<char>, b: Seq<char>) -> Order {
    match (x, y) {
        (Some(p), Some(q)) => instant_order(p, q),
        _ => compare_lex(a, b),
    }
}

#[verifier::opaque]
pub open spec fn start_order(a: RecView, b: RecView) -> Order {
    start_order_spec(rfc3339_instant(a.0), rfc3339_instant(b.0), a.0, b.0)
}

/// The order of two starts, given what each parses to.
pub fn order_of_starts(x: Option<(i64, u32)>, y: Option<(i64, u32)>, a: &str, b: &str) -> (r: Order)
    ensures
        r == start_order_spec(x, y, a@, b@),
{
    match (x, y) {
        (Some(p), Some(q)) => if p.0 < q.0 {
            Order::Less
        } else if p.0 > q.0 {
            Order::Greater
        } else if p.1 < q.1 {
            Order::Less
        } else if p.1 > q.1 {
            Order::Greater
        } else {
            Order::Equal
        },
        _ => compare_lex_exec(chars_of(a).as_slice(), chars_of(b).as_slice()),
    }
}

fn compare_starts(a: &BootRecordEntry, b: &BootRecordEntry) -> (r: Order)
    ensures
        r == start_order(rec_view(*a), rec_view(*b)),
{
    proof {
        reveal(start_order);
    }
    order_of_starts(
        parse_instant(a.boot_started_at.as_str()),
        parse_instant(b.boot_started_at.as_str()),
        a.boot_started_at.as_str(),
        b.boot_started_at.as_str(),
    )
}

/// `v` placed after every record that does not start later than it.
pub open spec fn insert_by_start(sorted: Seq<RecView>, v: RecView) -> Seq<RecView>
    decreases sorted.len(),
{
    if sorted.len() == 0 {
        seq![v]
    } else if start_order(sorted.last(), v) is Greater {
        insert_by_start(sorted.drop_last(), v).push(sorted.last())
    } else {
        sorted.push(v)
    }
}

/// A stable sort by start, oldest first.
pub open spec fn sort_by_start(s: Seq<RecView>) -> Seq<RecView>
    decreases s.len(),
{
    if s.len() == 0 {
        Seq::empty()
    } else {
        insert_by_start(sort_by_start(s.drop_last()), s.last())
    }
}

/// The newest `MAX_RECORDS` records, oldest first.
pub open spec fn keep_latest_spec(s: Seq<RecView>) -> Seq<RecView> {
    let t = sort_by_start(s);
    if t.len() > MAX_RECORDS {
        t.skip(t.len() - MAX_RECORDS)
    } else {
        t
    }
}

fn insert_position(out: &Vec<BootRecordEntry>, x: &BootRecordEntry) -> (pos: usize)
    ensures
        pos <= out.len(),
        ({
            let s = rec_views(out@);
            insert_by_start(s, rec_view(*x)) == s.take(pos as int).push(rec_view(*x)) + s.skip(pos as int)
        }),
{
    let ghost s = rec_views(out@);
    let ghost v = rec_view(*x);
    let mut pos = out.len();
    proof {
        assert(s.take(pos as int) =~= s);
        assert(s.skip(pos as int) =~= Seq::<RecView>::empty());
        assert(insert_by_start(s, v) + Seq::empty() =~= insert_by_start(s, v));
    }
    while pos > 0 && compare_starts(&out[pos - 1], x) == Order::Greater
        invariant
            pos <= out.len(),
            s == rec_views(out@),
            v == rec_view(*x),
            insert_by_start(s, v) == insert_by_start(s.take(pos as int), v) + s.skip(pos as int),
        decreases pos,
    {
        proof {
            let t = s.take(pos as int);
            assert(t.drop_last() =~= s.take(pos - 1));
            assert(t.last() == s[pos - 1]);
            assert(insert_by_start(t, v) == insert_by_start(s.take(pos - 1), v).push(s[pos - 1]));
            assert(insert_by_start(s.take(pos - 1), v).push(s[pos - 1]) + s.skip(pos as int)
                =~= insert_by_start(s.take(pos - 1), v) + s.skip(pos - 1));
        }
        pos = pos - 1;
    }
    proof {
        let t = s.take(pos as int);
        if pos > 0 {
            assert(t.last() == s[pos - 1]);
        } else {
            assert(t =~= Seq::<RecView>::empty());
        }
    }
    pos
}

/// Sorts the records by start, oldest first, keeping the order of equal
/// starts. Starts compare as instants when both parse, so that a change of
/// offset (`+08:00` against `+09:00`) does not misorder them; otherwise as
/// text, so that the order is still fixed.
pub fn sort_by_start_asc(v: &mut Vec<BootRecordEntry>)
    ensures
        rec_views(final(v)@) == sort_by_start(rec_views(old(v)@)),
{
    let mut input: Vec<BootRecordEntry> = Vec::new();
    std::mem::swap(&mut input, v);
    let ghost u = rec_views(input@);
    let mut out: Vec<BootRecordEntry> = Vec::new();
    let total = input.len();
    let mut j: usize = 0;
    assert(u.take(0) =~= Seq::<RecView>::empty());
    assert(rec_views(out@) =~= Seq::<RecView>::empty());
    while input.len() > 0
        invariant
            j + input.len() == u.len(),
            u.len() == total,
            rec_views(input@) == u.skip(j as int),
            rec_views(out@) == sort_by_start(u.take(j as int)),
        decreases input.len(),
    {
        let x = input.remove(0);
        proof {
            assert(u.skip(j as int)[0] == rec_view(x));
            assert(u.take(j + 1).drop_last() =~= u.take(j as int));
            assert(u.take(j + 1).last() == u[j as int]);
            assert(rec_views(input@) =~= u.skip(j as int).drop_first());
            assert(u.skip(j + 1) =~= u.skip(j as int).drop_first());
        }
        let pos = insert_position(&out, &x);
        let ghost before = rec_views(out@);
        out.insert(pos, x);
        proof {
            assert(rec_views(out@) =~= before.take(pos as int).push(rec_view(x)) + before.skip(pos as int));
        }
        j = j + 1;
    }
    assert(u.take(j as int) =~= u);
    *v = out;
}

/// Sorts the records by start and drops the oldest beyond
/// `MAX_RECORDS`: the newest records are the ones worth keeping.
pub fn keep_latest(v: Vec<BootRecordEntry>) -> (r: Vec<BootRecordEntry>)
    ensures
        rec_views(r@) == keep_latest_spec(rec_views(v@)),
{
    let mut v = v;
    sort_by_start_asc(&mut v);
    let n = v.len();
    if n > MAX_RECORDS {
        let ghost t = rec_views(v@);
        let tail = v.split_off(n - MAX_RECORDS);
        assert(rec_views(tail@) =~= t.skip(n - MAX_RECORDS));
        tail
    } else {
        v
    }
}

// ───────────────────────── adding a record ─────────────────────────

/// The first record, from `i` on, of the same boot session as `e`.
pub open spec fn first_session_from(all: Seq<RecView>, e: RecView, i: int) -> Option<int>
    decreases all.len() - i,
{
    if i < 0 || i >= all.len() {
        None
    } else if same_session_spec(rfc3339_instant(all[i].0), rfc3339_instant(e.0)) {
        Some(i)
    } else {
        first_session_from(all, e, i + 1)
    }
}

/// The records with `e` added: in the first record of the same session,
/// `e` takes its place when it was observed earlier (a smaller total), and
/// is dropped otherwise; with no such record it is appended.
pub open spec fn add_record_spec(all: Seq<RecView>, e: RecView) -> Seq<RecView> {
    match first_session_from(all, e, 0) {
        Some(k) => if e.2 < all[k].2 {
            all.update(k, e)
        } else {
            all
        },
        None => all.push(e),
    }
}

/// What the history holds after `e` is recorded: `e` added, then the
/// newest `MAX_RECORDS` records by start.
pub open spec fn merge_record_spec(all: Seq<RecView>, e: RecView) -> Seq<RecView> {
    keep_latest_spec(add_record_spec(all, e))
}

proof fn lemma_first_session_skip(all: Seq<RecView>, e: RecView, i: int)
    requires
        0 <= i < all.len(),
        !same_session_spec(rfc3339_instant(all[i].0), rfc3339_instant(e.0)),
    ensures
        first_session_from(all, e, i) == first_session_from(all, e, i + 1),
{
}

proof fn lemma_first_session_range(all: Seq<RecView>, e: RecView, i: int)
    requires
        0 <= i,
    ensures
        first_session_from(all, e, i) matches Some(k) ==> i <= k < all.len()
            && same_session_spec(rfc3339_instant(all[k].0), rfc3339_instant(e.0)),
    decreases all.len() - i,
{
    if i < all.len() {
        lemma_first_session_range(all, e, i + 1);
    }
}

/// Adds a record to the history. A record of a session already present
/// replaces the first record of that session only when it was observed
/// earlier (its total is smaller), since a later run measures uptime, not
/// the boot; otherwise it is appended. The result is sorted by start and
/// cut to the newest `MAX_RECORDS`.
pub fn merge_record(all: Vec<BootRecordEntry>, entry: BootRecordEntry) -> (r: Vec<BootRecordEntry>)
    ensures
        rec_views(r@) == merge_record_spec(rec_views(all@), rec_view(entry)),
{
    let ghost s = rec_views(all@);
    let ghost e = rec_view(entry);
    let mut all = all;
    let mut i: usize = 0;
    let mut found: Option<usize> = None;
    while found.is_none() && i < all.len()
        invariant
            i <= all.len(),
            s == rec_views(all@),
            e == rec_view(entry),
            found is None ==> first_session_from(s, e, 0) == first_session_from(s, e, i as int),
            found matches Some(k) ==> k < all.len() && first_session_from(s, e, 0) == Some(k as int),
        decreases all.len() - i + (if found is None { 1int } else { 0int }),
    {
        if same_boot_session(&all[i], &entry) {
            found = Some(i);
        } else {
            proof {
                lemma_first_session_skip(s, e, i as int);
            }
            i = i + 1;
        }
    }
    proof {
        lemma_first_session_range(s, e, 0);
    }
    match found {
        Some(k) => {
            if entry.total_ms < all[k].total_ms {
                let _old = all.remove(k);
                all.insert(k, entry);
                assert(rec_views(all@) =~= s.update(k as int, e));
            }
        },
        None => {
            assert(first_session_from(s, e, all.len() as int) is None);
            all.push(entry);
            assert(rec_views(all@) =~= s.push(e));
        },
    }
    keep_latest(all)
}

// ───────────────────────── laws ─────────────────────────

/// Seen from the other side, the order of two starts is reversed.
pub proof fn lemma_start_order_flip(a: RecView, b: RecView)
    ensures
        start_order(a, b) == crate::text::flip(start_order(b, a)),
{
    reveal(start_order);
    match (rfc3339_instant(a.0), rfc3339_instant(b.0)) {
        (Some(p), Some(q)) => {},
        _ => {
            crate::text::lemma_compare_lex_flip(a.0, b.0);
        },
    }
}

/// No record starts after the record that follows it.
pub open spec fn start_sorted(s: Seq<RecView>) -> bool {
    forall|i: int| 0 <= i < s.len() - 1 ==> !(#[trigger] start_order(s[i], s[i + 1]) is Greater)
}

proof fn lemma_insert_by_start(sorted: Seq<RecView>, v: RecView)
    requires
        start_sorted(sorted),
    ensures
        start_sorted(insert_by_start(sorted, v)),
        insert_by_start(sorted, v).len() == sorted.len() + 1,
        insert_by_start(sorted, v).last() == v || (sorted.len() > 0 && insert_by_start(sorted, v).last()
            == sorted.last()),
    decreases sorted.len(),
{
    if sorted.len() == 0 {
    } else if start_order(sorted.last(), v) is Greater {
        let t = sorted.drop_last();
        assert(start_sorted(t)) by {
            assert forall|i: int| 0 <= i < t.len() - 1 implies !(#[trigger] start_order(t[i], t[i + 1]) is Greater) by {
                assert(t[i] == sorted[i] && t[i + 1] == sorted[i + 1]);
            }
        }
        lemma_insert_by_start(t, v);
        let w = insert_by_start(t, v);
        let r = w.push(sorted.last());
        assert(r == insert_by_start(sorted, v));
        lemma_start_order_flip(v, sorted.last());
        if w.last() != v {
            assert(t.len() > 0 && w.last() == t.last());
            assert(t.last() == sorted[sorted.len() - 2]);
            let j = sorted.len() - 2;
            assert(!(start_order(sorted[j], sorted[j + 1]) is Greater));
        }
        assert forall|i: int| 0 <= i < r.len() - 1 implies !(#[trigger] start_order(r[i], r[i + 1]) is Greater) by {
            if i < w.len() - 1 {
                assert(r[i] == w[i] && r[i + 1] == w[i + 1]);
            } else {
                assert(r[i] == w.last() && r[i + 1] == sorted.last());
            }
        }
    } else {
        let r = sorted.push(v);
        assert forall|i: int| 0 <= i < r.len() - 1 implies !(#[trigger] start_order(r[i], r[i + 1]) is Greater) by {
            if i < sorted.len() - 1 {
                assert(r[i] == sorted[i] && r[i + 1] == sorted[i + 1]);
            }
        }
    }
}

proof fn lemma_sort_by_start(s: Seq<RecView>)
    ensures
        start_sorted(sort_by_start(s)),
        sort_by_start(s).len() == s.len(),
    decreases s.len(),
{
    if s.len() > 0 {
        lemma_sort_by_start(s.drop_last());
        lemma_insert_by_start(sort_by_start(s.drop_last()), s.last());
    }
}

/// The kept history is ordered by start, oldest first, and holds every
/// record up to `MAX_RECORDS`; beyond that it holds the newest
/// `MAX_RECORDS`, the oldest being dropped.
pub proof fn lemma_kept_history(s: Seq<RecView>)
    ensures
        start_sorted(keep_latest_spec(s)),
        keep_latest_spec(s).len() == if s.len() > MAX_RECORDS { MAX_RECORDS as nat } else { s.len() },
        keep_latest_spec(s) == sort_by_start(s).skip(sort_by_start(s).len() - keep_latest_spec(s).len()),
{
    lemma_sort_by_start(s);
    let t = sort_by_start(s);
    if t.len() > MAX_RECORDS {
        let k = t.skip(t.len() - MAX_RECORDS);
        assert forall|i: int| 0 <= i < k.len() - 1 implies !(#[trigger] start_order(k[i], k[i + 1]) is Greater) by {
            let j = i + t.len() - MAX_RECORDS;
            assert(k[i] == t[j]);
            assert(k[i + 1] == t[j + 1]);
            assert(!(start_order(t[j], t[j + 1]) is Greater));
        }
    } else {
        assert(t.skip(0) =~= t);
    }
}

/// Within one boot session only the earliest observation is kept: a
/// record of a session already present leaves the number of records as it
/// was, and that session's record keeps the smaller total.
pub proof fn lemma_same_session_keeps_earliest(all: Seq<RecView>, e: RecView, k: int)
    requires
        first_session_from(all, e, 0) == Some(k),
    ensures
        0 <= k < all.len(),
        add_record_spec(all, e).len() == all.len(),
        add_record_spec(all, e)[k].2 == if e.2 < all[k].2 { e.2 } else { all[k].2 },
{
    lemma_first_session_range(all, e, 0);
}

/// A record whose start cannot be read is never merged into another: it
/// is appended, so no real history is lost.
pub proof fn lemma_unreadable_start_never_merges(all: Seq<RecView>, e: RecView)
    requires
        rfc3339_instant(e.0) is None,
    ensures
        add_record_spec(all, e) == all.push(e),
{
    assert(first_session_from(all, e, 0) is None) by {
        lemma_no_session_when_unreadable(all, e, 0);
    }
}

proof fn lemma_no_session_when_unreadable(all: Seq<RecView>, e: RecView, i: int)
    requires
        rfc3339_instant(e.0) is None,
    ensures
        first_session_from(all, e, i) is None,
    decreases all.len() - i,
{
    if 0 <= i < all.len() {
        lemma_no_session_when_unreadable(all, e, i + 1);
    }
}

// ───────────────────────── when the boot began ─────────────────────────

/// When this boot began, in milliseconds since the Unix epoch, how long
/// ago that was at the time of the record, and whether the system log
/// confirmed it.
#[derive(Debug, Clone, Copy, PartialEq, Eq, Structural)]
pub struct BootStart {
    pub started_ms: i64,
    pub total_ms: u64,
    pub from_log: bool,
}

/// The start reckoned from the tick count: now less the milliseconds the
/// kernel has run. Fast startup does not reset the tick count.
pub open spec fn tick_start(now_ms: i64, tick_ms: u64) -> int {
    now_ms - tick_ms
}

/// The logged start agrees with the tick count when it lies from a minute
/// before to ten minutes after the reckoned start: the kernel runs a little
/// before the log service does.
pub open spec fn agrees_with_tick(logged_ms: int, reckoned_ms: int) -> bool {
    -60_000 <= logged_ms - reckoned_ms <= 600_000
}

pub open spec fn boot_start_spec(now_ms: i64, tick_ms: u64, logged_ms: Option<i64>) -> (int, bool) {
    let t = tick_start(now_ms, tick_ms);
    match logged_ms {
        Some(l) => if agrees_with_tick(l as int, t) {
            (t, true)
        } else {
            (l as int, true)
        },
        None => (t, false),
    }
}

/// Where this boot began: the tick count's start when the system log's
/// start of this boot agrees with it (it is a little earlier, and the
/// earlier seconds are part of the boot); the logged start when they
/// disagree, which happens after fast-startup boots; the tick count's
/// start, marked as an estimate, when the log could not be read. The total
/// is the time from that start to now, never below zero.
pub fn estimate_boot_start(now_ms: i64, tick_ms: u64, logged_ms: Option<i64>) -> (r: BootStart)
    requires
        tick_ms <= i64::MAX,
        now_ms - tick_ms >= i64::MIN,
    ensures
        r.started_ms == boot_start_spec(now_ms, tick_ms, logged_ms).0,
        r.from_log == boot_start_spec(now_ms, tick_ms, logged_ms).1,
        r.total_ms == if now_ms - r.started_ms > 0 { now_ms - r.started_ms } else { 0 },
{
    let reckoned: i64 = now_ms - tick_ms as i64;
    let (started, from_log) = match logged_ms {
        Some(l) => {
            let delta: i128 = l as i128 - reckoned as i128;
            if -60_000i128 <= delta && delta <= 600_000i128 {
                (reckoned, true)
            } else {
                (l, true)
            }
        },
        None => (reckoned, false),
    };
    let span: i128 = now_ms as i128 - started as i128;
    let total_ms: u64 = if span > 0 { span as u64 } else { 0 };
    BootStart { started_ms: started, total_ms, from_log }
}

/// A record of this boot, with its start and the time of the record
/// written out as RFC 3339 by the caller.
pub fn observed_entry(boot_started_at: String, recorded_at: String, start: BootStart) -> (r: BootRecordEntry)
    ensures
        r.boot_started_at == boot_started_at,
        r.recorded_at == recorded_at,
        r.total_ms == start.total_ms,
        r.source@ == SOURCE_MARKER@,
        r.basis@ == if start.from_log { BASIS_LOG@ } else { BASIS_TICK@ },
{
    let mut source = String::new();
    crate::text::push_str(&mut source, SOURCE_MARKER);
    let mut basis = String::new();
    crate::text::push_str(&mut basis, if start.from_log { BASIS_LOG } else { BASIS_TICK });
    BootRecordEntry { boot_started_at, recorded_at, total_ms: start.total_ms, source, basis }
}

// ───────────────────────── starting at logon ─────────────────────────

/// The argument with which the program only records the boot and exits.
pub const MARK_BOOT_ARG: &'static str = "--mark-boot";

/// The task's path in the root of the task scheduler's library.
pub const TASK_PATH: &'static str = "\\BootFlowBootMarker";

/// The value name under `HKCU\...\Run`.
pub const RUN_VALUE_NAME: &'static str = "BootFlowBootMarker";

/// Which entry point starts the program at logon. Only one may exist:
/// with two, every logon would start the program twice.
#[derive(Debug, Clone, Copy, PartialEq, Eq, Structural)]
pub enum AutostartPlan {
    /// The task is there: keep it, and remove the Run value.
    KeepTask,
    /// Register the logon task (the process is elevated).
    RegisterTask,
    /// Write the Run value (the only way without elevation).
    WriteRunKey,
}

/// An existing task always wins; else an elevated process registers the
/// task, and any other writes the Run value.
pub fn plan_autostart(task_exists: bool, elevated: bool) -> (r: AutostartPlan)
    ensures
        r == (if task_exists {
            AutostartPlan::KeepTask
        } else if elevated {
            AutostartPlan::RegisterTask
        } else {
            AutostartPlan::WriteRunKey
        }),
{
    if task_exists {
        AutostartPlan::KeepTask
    } else if elevated {
        AutostartPlan::RegisterTask
    } else {
        AutostartPlan::WriteRunKey
    }
}

/// The Run value: the program's path in quotes (it may hold spaces), then
/// the marking argument.
pub open spec fn run_command_spec(exe: Seq<char>) -> Seq<char> {
    seq!['"'] + exe + seq!['"', ' '] + MARK_BOOT_ARG@
}

pub fn run_entry_command(exe: &str) -> (r: String)
    ensures
        r@ == run_command_spec(exe@),
{
    let mut s = String::new();
    crate::text::push_char(&mut s, '"');
    crate::text::push_str(&mut s, exe);
    crate::text::push_char(&mut s, '"');
    crate::text::push_char(&mut s, ' ');
    crate::text::push_str(&mut s, MARK_BOOT_ARG);
    assert(s@ =~= run_command_spec(exe@));
    s
}

/// Whether a Run value or a task definition is this program's marker
/// entry: it carries the marking argument. Nothing else is removed.
pub fn is_marker_entry(text: &str) -> (r: bool)
    ensures
        r == crate::text::contains(text@, MARK_BOOT_ARG@),
{
    crate::text::contains_exec(chars_of(text).as_slice(), chars_of(MARK_BOOT_ARG).as_slice())
}

/// Whether a registered task's definition already starts this program,
/// so that registering again changes nothing.
pub fn task_points_to(task_xml_text: &str, exe: &str) -> (r: bool)
    ensures
        r == crate::text::contains(task_xml_text@, exe@),
{
    crate::text::contains_exec(chars_of(task_xml_text).as_slice(), chars_of(exe).as_slice())
}

/// The entity that stands for a character in XML text.
pub open spec fn xml_entity(c: char) -> Seq<char> {
    if c == '&' {
        "&amp;"@
    } else if c == '<' {
        "&lt;"@
    } else if c == '>' {
        "&gt;"@
    } else if c == '"' {
        "&quot;"@
    } else if c == '\'' {
        "&apos;"@
    } else {
        seq![c]
    }
}

/// Each character replaced by its entity, once: an entity made here is
/// never escaped again.
pub open spec fn escape_xml_spec(s: Seq<char>) -> Seq<char>
    decreases s.len(),
{
    if s.len() == 0 {
        Seq::empty()
    } else {
        escape_xml_spec(s.drop_last()) + xml_entity(s.last())
    }
}

/// Escapes `&`, `<`, `>`, `"` and `'` for XML text. A path such as
/// `C:\Tools\A & B\app.exe` would otherwise break the task definition.
pub fn escape_xml(s: &str) -> (r: String)
    ensures
        r@ == escape_xml_spec(s@),
{
    let v = chars_of(s);
    let mut out = String::new();
    let mut i: usize = 0;
    while i < v.len()
        invariant
            i <= v.len(),
            out@ == escape_xml_spec(v@.take(i as int)),
        decreases v.len() - i,
    {
        let c = v[i];
        assert(v@.take(i + 1).drop_last() =~= v@.take(i as int));
        assert(v@.take(i + 1).last() == c);
        if c == '&' {
            crate::text::push_str(&mut out, "&amp;");
        } else if c == '<' {
            crate::text::push_str(&mut out, "&lt;");
        } else if c == '>' {
            crate::text::push_str(&mut out, "&gt;");
        } else if c == '"' {
            crate::text::push_str(&mut out, "&quot;");
        } else if c == '\'' {
            crate::text::push_str(&mut out, "&apos;");
        } else {
            crate::text::push_char(&mut out, c);
        }
        i = i + 1;
    }
    assert(v@.take(v.len() as int) =~= v@);
    out
}

/// The task definition before the task's path.
pub const TASK_XML_HEAD: &'static str = r#"<?xml version="1.0" encoding="UTF-16"?>
<Task version="1.2" xmlns="http://schemas.microsoft.com/windows/2004/02/mit/task">
  <RegistrationInfo>
    <Description>BootFlow 开机自记账：登录时记一条本次开机耗时。只写自己的数据文件，不需要管理员权限。</Description>
    <URI>"#;

/// The task definition between the task's path and the program's path.
pub const TASK_XML_MIDDLE: &'static str = r#"</URI>
  </RegistrationInfo>
  <Triggers>
    <LogonTrigger>
      <Enabled>true</Enabled>
    </LogonTrigger>
  </Triggers>
  <Principals>
    <Principal id="Author">
      <LogonType>InteractiveToken</LogonType>
      <RunLevel>LeastPrivilege</RunLevel>
    </Principal>
  </Principals>
  <Settings>
    <MultipleInstancesPolicy>IgnoreNew</MultipleInstancesPolicy>
    <DisallowStartIfOnBatteries>false</DisallowStartIfOnBatteries>
    <StopIfGoingOnBatteries>false</StopIfGoingOnBatteries>
    <AllowHardTerminate>true</AllowHardTerminate>
    <StartWhenAvailable>true</StartWhenAvailable>
    <RunOnlyIfNetworkAvailable>false</RunOnlyIfNetworkAvailable>
    <IdleSettings>
      <StopOnIdleEnd>false</StopOnIdleEnd>
      <RestartOnIdle>false</RestartOnIdle>
    </IdleSettings>
    <AllowStartOnDemand>true</AllowStartOnDemand>
    <Enabled>true</Enabled>
    <Hidden>false</Hidden>
    <RunOnlyIfIdle>false</RunOnlyIfIdle>
    <WakeToRun>false</WakeToRun>
    <ExecutionTimeLimit>PT2M</ExecutionTimeLimit>
    <Priority>7</Priority>
  </Settings>
  <Actions Context="Author">
    <Exec>
      <Command>"#;

/// The task definition after the program's path.
pub const TASK_XML_TAIL: &'static str = r#"</Command>
      <Arguments>--mark-boot</Arguments>
    </Exec>
  </Actions>
</Task>"#;

/// The task definition: run at logon, at the least privilege (so that no
/// elevation prompt ever appears), with the user's own token, also on
/// battery, at most two minutes, and only the marking argument.
pub fn task_xml(exe_path: &str) -> (r: String)
    ensures
        r@ == TASK_XML_HEAD@ + TASK_PATH@ + TASK_XML_MIDDLE@ + escape_xml_spec(exe_path@) + TASK_XML_TAIL@,
{
    let mut s = String::new();
    crate::text::push_str(&mut s, TASK_XML_HEAD);
    crate::text::push_str(&mut s, TASK_PATH);
    crate::text::push_str(&mut s, TASK_XML_MIDDLE);
    let e = escape_xml(exe_path);
    crate::text::push_str(&mut s, e.as_str());
    crate::text::push_str(&mut s, TASK_XML_TAIL);
    s
}

} // verus!
