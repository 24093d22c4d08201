//! What each startup item cost at boot: the slow-start records of the
//! event log, gathered per program.

use vstd::prelude::*;
use crate::diag::boot_log::{field, field_u64, RawEvent};
use crate::diag::codes;
use crate::diag::proc_snapshot::{ProcSnapshot, Snapshot};
use crate::diag::startup_info::{level_of, level_spec, StartupInfoRecord, StartupInfoReport};
use crate::model::{
    BootPhase, BootTimeline, Confidence, DiagnosticInfo, ImpactLevel, ImpactOverview, ItemImpact,
    ItemTiming, RiskLevel, SlowService, SourceKind, StartupItem,
};
use crate::scanners::builder::last_dot;
use crate::scanners::scheduled_task::diag_view;
use crate::text::{
    after_last, after_last_exec, chars_eq, chars_of, decimal, eq_ignore_case, lower_chars, lower_seq,
    one_decimal, opt_chars, owned, push_decimal, push_one_decimal, push_str, string_of, trim,
    trim_chars, two_chars,
};

verus! {

/// A slow-start record as name, friendly name, total, degradation and event id.
pub open spec fn slow_view(s: SlowService) -> (Seq<char>, Option<Seq<char>>, u64, u64, u32) {
    (s.name@, opt_chars(s.friendly_name), s.duration_ms, s.degradation_ms, s.event_id)
}

pub open spec fn slow_views(s: Seq<SlowService>) -> Seq<(Seq<char>, Option<Seq<char>>, u64, u64, u32)> {
    s.map_values(|x: SlowService| slow_view(x))
}

/// The slow-start record an event gives: events 101 to 103 with a
/// non-blank `Name`; a missing `TotalTime` or `DegradationTime` counts as 0.
pub open spec fn slow_of_event(e: RawEvent) -> Option<(Seq<char>, Option<Seq<char>>, u64, u64, u32)> {
    let d = e.data@;
    if 101 <= e.event_id <= 103 {
        match field(d, "Name"@) {
            Some(name) => if trim(name).len() > 0 {
                Some(
                    (
                        name,
                        field(d, "FriendlyName"@),
                        match field_u64(d, "TotalTime"@) {
                            Some(t) => t,
                            None => 0,
                        },
                        match field_u64(d, "DegradationTime"@) {
                            Some(t) => t,
                            None => 0,
                        },
                        e.event_id,
                    ),
                )
            } else {
                None
            },
            None => None,
        }
    } else {
        None
    }
}

/// Whether a record with this name, compared ignoring ASCII case, is taken.
pub open spec fn name_taken(acc: Seq<(Seq<char>, Option<Seq<char>>, u64, u64, u32)>, name: Seq<char>) -> bool {
    exists|k: int| 0 <= k < acc.len() && lower_seq(#[trigger] acc[k].0) == lower_seq(name)
}

/// One record per name, the first one in event order (the newest boot).
pub open spec fn slow_unique(events: Seq<RawEvent>) -> Seq<(Seq<char>, Option<Seq<char>>, u64, u64, u32)>
    decreases events.len(),
{
    if events.len() == 0 {
        Seq::empty()
    } else {
        let acc = slow_unique(events.drop_last());
        match slow_of_event(events.last()) {
            Some(v) => if name_taken(acc, v.0) {
                acc
            } else {
                acc.push(v)
            },
            None => acc,
        }
    }
}

/// `v` placed after every record with at least its degradation.
pub open spec fn insert_by_degradation(
    sorted: Seq<(Seq<char>, Option<Seq<char>>, u64, u64, u32)>,
    v: (Seq<char>, Option<Seq<char>>, u64, u64, u32),
) -> Seq<(Seq<char>, Option<Seq<char>>, u64, u64, u32)>
    decreases sorted.len(),
{
    if sorted.len() == 0 {
        seq![v]
    } else if sorted.last().3 >= v.3 {
        sorted.push(v)
    } else {
        insert_by_degradation(sorted.drop_last(), v).push(sorted.last())
    }
}

/// A stable sort by degradation, largest first.
pub open spec fn sort_by_degradation(s: Seq<(Seq<char>, Option<Seq<char>>, u64, u64, u32)>) -> Seq<(Seq<char>, Option<Seq<char>>, u64, u64, u32)>
    decreases s.len(),
{
    if s.len() == 0 {
        Seq::empty()
    } else {
        insert_by_degradation(sort_by_degradation(s.drop_last()), s.last())
    }
}

pub open spec fn collect_slow_spec(events: Seq<RawEvent>) -> Seq<(Seq<char>, Option<Seq<char>>, u64, u64, u32)> {
    sort_by_degradation(slow_unique(events))
}

fn slow_of_event_exec(e: &RawEvent) -> (r: Option<SlowService>)
    ensures
        match r {
            Some(s) => slow_of_event(*e) == Some(slow_view(s)),
            None => slow_of_event(*e) is None,
        },
{
    if e.event_id < 101 || e.event_id > 103 {
        return None;
    }
    let name = match e.get("Name") {
        Some(n) => n,
        None => {
            return None;
        },
    };
    if trim_chars(chars_of(name).as_slice()).len() == 0 {
        return None;
    }
    let mut nm = String::new();
    crate::text::push_str(&mut nm, name);
    let friendly_name = match e.get("FriendlyName") {
        Some(f) => {
            let mut s = String::new();
            crate::text::push_str(&mut s, f);
            Some(s)
        },
        None => None,
    };
    let duration_ms = match e.get_u64("TotalTime") {
        Some(t) => t,
        None => 0,
    };
    let degradation_ms = match e.get_u64("DegradationTime") {
        Some(t) => t,
        None => 0,
    };
    Some(SlowService { name: nm, friendly_name, duration_ms, degradation_ms, event_id: e.event_id })
}

/// Where `v` goes: after every record with at least its degradation.
fn insert_position(out: &Vec<SlowService>, deg: u64) -> (pos: usize)
    ensures
        pos <= out.len(),
        ({
            let s = slow_views(out@);
            forall|v: (Seq<char>, Option<Seq<char>>, u64, u64, u32)| v.3 == deg ==>
                #[trigger] insert_by_degradation(s, v) == s.take(pos as int).push(v) + s.skip(pos as int)
        }),
{
    let ghost s = slow_views(out@);
    let mut pos = out.len();
    proof {
        assert forall|v: (Seq<char>, Option<Seq<char>>, u64, u64, u32)| v.3 == deg implies
            #[trigger] insert_by_degradation(s, v) == insert_by_degradation(s.take(pos as int), v)
            + s.skip(pos as int) by {
            assert(s.take(pos as int) =~= s);
            assert(s.skip(pos as int) =~= Seq::<(Seq<char>, Option<Seq<char>>, u64, u64, u32)>::empty());
            assert(insert_by_degradation(s, v) + Seq::empty() =~= insert_by_degradation(s, v));
        }
    }
    while pos > 0 && out[pos - 1].degradation_ms < deg
        invariant
            pos <= out.len(),
            s == slow_views(out@),
            forall|v: (Seq<char>, Option<Seq<char>>, u64, u64, u32)| v.3 == deg ==>
                #[trigger] insert_by_degradation(s, v) == insert_by_degradation(s.take(pos as int), v)
                + s.skip(pos as int),
        decreases pos,
    {
        proof {
            assert forall|v: (Seq<char>, Option<Seq<char>>, u64, u64, u32)| v.3 == deg implies
                #[trigger] insert_by_degradation(s, v) == insert_by_degradation(s.take(pos - 1), v)
                + s.skip(pos - 1) by {
                let t = s.take(pos as int);
                assert(t.drop_last() =~= s.take(pos - 1));
                assert(t.last() == s[pos - 1]);
                assert(insert_by_degradation(t, v) == insert_by_degradation(s.take(pos - 1), v).push(s[pos - 1]));
                assert(insert_by_degradation(s.take(pos - 1), v).push(s[pos - 1]) + s.skip(pos as int)
                    =~= insert_by_degradation(s.take(pos - 1), v) + s.skip(pos - 1));
            }
        }
        pos = pos - 1;
    }
    proof {
        assert forall|v: (Seq<char>, Option<Seq<char>>, u64, u64, u32)| v.3 == deg implies
            #[trigger] insert_by_degradation(s, v) == s.take(pos as int).push(v) + s.skip(pos as int) by {
            let t = s.take(pos as int);
            if pos > 0 {
                assert(t.last() == s[pos - 1]);
            } else {
                assert(t =~= Seq::<(Seq<char>, Option<Seq<char>>, u64, u64, u32)>::empty());
            }
        }
    }
    pos
}

/// The slow-start records of the log, one per name (compared ignoring
/// ASCII case, the first in event order kept, which is the newest boot),
/// slowest first. A missing total time is recorded as 0, not dropped.
pub fn collect_slow(events: &[RawEvent]) -> (r: Vec<SlowService>)
    ensures
        slow_views(r@) == collect_slow_spec(events@),
{
    let mut uniq: Vec<SlowService> = Vec::new();
    let mut i: usize = 0;
    assert(events@.take(0) =~= Seq::<RawEvent>::empty());
    while i < events.len()
        invariant
            i <= events.len(),
            slow_views(uniq@) == slow_unique(events@.take(i as int)),
        decreases events.len() - i,
    {
        let ghost acc = slow_views(uniq@);
        assert(events@.take(i + 1).drop_last() =~= events@.take(i as int));
        assert(events@.take(i + 1).last() == events@[i as int]);
        match slow_of_event_exec(&events[i]) {
            Some(s) => {
                let n = chars_of(s.name.as_str());
                let mut taken = false;
                let mut k: usize = 0;
                while k < uniq.len()
                    invariant
                        k <= uniq.len(),
                        acc == slow_views(uniq@),
                        n@ == s.name@,
                        taken == exists|j: int| 0 <= j < k && lower_seq(#[trigger] acc[j].0) == lower_seq(n@),
                    decreases uniq.len() - k,
                {
                    let m = chars_of(uniq[k].name.as_str());
                    if eq_ignore_case(m.as_slice(), n.as_slice()) {
                        taken = true;
                    }
                    proof {
                        assert(acc[k as int].0 == m@);
                        if taken {
                            if lower_seq(m@) == lower_seq(n@) {
                                assert(lower_seq(acc[k as int].0) == lower_seq(n@));
                            }
                        }
                    }
                    k = k + 1;
                }
                if !taken {
                    uniq.push(s);
                    assert(slow_views(uniq@) =~= acc.push(slow_view(s)));
                }
            },
            None => {},
        }
        i = i + 1;
    }
    assert(events@.take(events.len() as int) =~= events@);
    // stable insertion sort, slowest first
    let ghost u = slow_views(uniq@);
    let mut out: Vec<SlowService> = Vec::new();
    let total = uniq.len();
    let mut j: usize = 0;
    assert(u.take(0) =~= Seq::<(Seq<char>, Option<Seq<char>>, u64, u64, u32)>::empty());
    assert(slow_views(out@) =~= Seq::<(Seq<char>, Option<Seq<char>>, u64, u64, u32)>::empty());
    while uniq.len() > 0
        invariant
            j + uniq.len() == u.len(),
            u.len() == total,
            slow_views(uniq@) == u.skip(j as int),
            slow_views(out@) == sort_by_degradation(u.take(j as int)),
        decreases uniq.len(),
    {
        let s = uniq.remove(0);
        proof {
            assert(u.skip(j as int)[0] == slow_view(s));
            assert(u.take(j + 1).drop_last() =~= u.take(j as int));
            assert(u.take(j + 1).last() == u[j as int]);
            assert(u.skip(j + 1) =~= u.skip(j as int).drop_first());
            assert(slow_views(uniq@) =~= u.skip(j as int).drop_first());
        }
        let pos = insert_position(&out, s.degradation_ms);
        let ghost before = slow_views(out@);
        out.insert(pos, s);
        proof {
            assert(slow_views(out@) =~= before.take(pos as int).push(slow_view(s)) + before.skip(
                pos as int,
            ));
            assert(insert_by_degradation(before, slow_view(s)) == before.take(pos as int).push(
                slow_view(s),
            ) + before.skip(pos as int));
        }
        j = j + 1;
    }
    assert(u.take(j as int) =~= u);
    out
}

// ───────────────────────── attributing the cost to items ─────────────────────────

/// A diagnosis is worth showing from this much extra start time (ms).
pub const MIN_REPORTED_DEGRADATION_MS: u64 = 500;

/// The key an item is attributed by: its target's file name, trimmed and
/// lower-cased; `None` when there is none.
pub open spec fn exe_key_spec(path: Seq<char>) -> Option<Seq<char>> {
    let base = trim(after_last(path, seq!['\\', '/']));
    if base.len() == 0 {
        None
    } else {
        Some(lower_seq(base))
    }
}

pub fn exe_key(path: &str) -> (r: Option<String>)
    ensures
        opt_chars(r) == exe_key_spec(path@),
{
    let seps = two_chars('\\', '/');
    let base = trim_chars(after_last_exec(chars_of(path).as_slice(), seps.as_slice()).as_slice());
    if base.len() == 0 {
        None
    } else {
        Some(string_of(lower_chars(base.as_slice()).as_slice()))
    }
}

pub open spec fn keys_spec(items: Seq<StartupItem>) -> Seq<Option<Seq<char>>> {
    items.map_values(|it: StartupItem| exe_key_spec(it.resolved_path@))
}

/// How many items have this key.
pub open spec fn count_in(ks: Seq<Option<Seq<char>>>, key: Seq<char>) -> nat
    decreases ks.len(),
{
    if ks.len() == 0 {
        0
    } else {
        count_in(ks.drop_last(), key) + (if ks.last() == Some(key) { 1nat } else { 0nat })
    }
}

fn item_keys(items: &Vec<StartupItem>) -> (ks: Vec<Option<String>>)
    ensures
        ks@.len() == items@.len(),
        forall|i: int| 0 <= i < items@.len() ==> opt_chars(#[trigger] ks@[i]) == exe_key_spec(items@[i].resolved_path@),
{
    let mut ks: Vec<Option<String>> = Vec::new();
    let mut i: usize = 0;
    while i < items.len()
        invariant
            i <= items.len(),
            ks@.len() == i,
            forall|k: int| 0 <= k < i ==> opt_chars(#[trigger] ks@[k]) == exe_key_spec(items@[k].resolved_path@),
        decreases items.len() - i,
    {
        ks.push(exe_key(items[i].resolved_path.as_str()));
        i = i + 1;
    }
    ks
}

fn owners(ks: &Vec<Option<String>>, key: &str, items: Ghost<Seq<StartupItem>>) -> (r: bool)
    requires
        ks@.len() == items@.len(),
        forall|i: int| 0 <= i < items@.len() ==> opt_chars(#[trigger] ks@[i]) == exe_key_spec(items@[i].resolved_path@),
    ensures
        r == (count_in(keys_spec(items@), key@) == 1),
{
    let ghost kv = keys_spec(items@);
    let k = chars_of(key);
    let mut n: usize = 0;
    let mut i: usize = 0;
    while i < ks.len()
        invariant
            i <= ks.len(),
            ks@.len() == items@.len(),
            kv == keys_spec(items@),
            k@ == key@,
            forall|j: int| 0 <= j < items@.len() ==> opt_chars(#[trigger] ks@[j]) == exe_key_spec(items@[j].resolved_path@),
            n == count_in(kv.take(i as int), key@),
            n <= i,
        decreases ks.len() - i,
    {
        assert(kv.take(i + 1).drop_last() =~= kv.take(i as int));
        assert(kv.take(i + 1).last() == kv[i as int]);
        assert(kv[i as int] == opt_chars(ks@[i as int]));
        match &ks[i] {
            Some(x) => {
                if chars_eq(chars_of(x.as_str()).as_slice(), k.as_slice()) {
                    n = n + 1;
                }
            },
            None => {},
        }
        i = i + 1;
    }
    assert(kv.take(ks.len() as int) =~= kv);
    n == 1
}

/// The first sampled process with this name.
pub open spec fn first_proc(procs: Seq<ProcSnapshot>, key: Seq<char>) -> Option<int>
    decreases procs.len(),
{
    if procs.len() == 0 {
        None
    } else if procs[0].name@ == key {
        Some(0)
    } else {
        match first_proc(procs.drop_first(), key) {
            Some(i) => Some(i + 1),
            None => None,
        }
    }
}

/// The process of an item: only when no other item claims the same file
/// name (else it cannot be told whose process it is), and only when it
/// was running.
pub open spec fn observe_spec(item: StartupItem, ks: Seq<Option<Seq<char>>>, procs: Seq<ProcSnapshot>) -> Option<int> {
    match exe_key_spec(item.resolved_path@) {
        Some(k) => if count_in(ks, k) == 1 {
            first_proc(procs, k)
        } else {
            None
        },
        None => None,
    }
}

fn find_proc(procs: &Vec<ProcSnapshot>, key: &str) -> (r: Option<usize>)
    ensures
        match r {
            Some(i) => i < procs@.len() && first_proc(procs@, key@) == Some(i as int),
            None => first_proc(procs@, key@) is None,
        },
{
    let k = chars_of(key);
    let mut i: usize = 0;
    assert(procs@.skip(0) =~= procs@);
    while i < procs.len()
        invariant
            i <= procs.len(),
            k@ == key@,
            first_proc(procs@, key@) == match first_proc(procs@.skip(i as int), key@) {
                Some(j) => Some(j + i),
                None => None,
            },
        decreases procs.len() - i,
    {
        let ghost rest = procs@.skip(i as int);
        assert(rest[0] == procs@[i as int]);
        assert(rest.drop_first() =~= procs@.skip(i + 1));
        if chars_eq(chars_of(procs[i].name.as_str()).as_slice(), k.as_slice()) {
            return Some(i);
        }
        i = i + 1;
    }
    None
}

/// A file name without what follows its last dot.
pub open spec fn stem_of(s: Seq<char>) -> Seq<char> {
    match last_dot(s) {
        Some(i) => s.take(i),
        None => s,
    }
}

/// Whether a slow-start record is about this item: a service record (103)
/// names the service; an application or driver record names the file,
/// compared with the item's file name without extension and ignoring ASCII
/// case. A blank name matches nothing.
pub open spec fn matches_spec(item: StartupItem, slow: SlowService) -> bool {
    let name = trim(slow.name@);
    if name.len() == 0 {
        false
    } else if slow.event_id == 103 && item.source is Service {
        lower_seq(item.name@) == lower_seq(name)
    } else {
        let file = trim(after_last(item.resolved_path@, seq!['\\', '/']));
        file.len() > 0 && lower_seq(stem_of(file)) == lower_seq(stem_of(name))
    }
}

fn stem_exec(v: &[char]) -> (r: Vec<char>)
    ensures
        r@ == stem_of(v@),
{
    let mut k: usize = v.len();
    assert(v@.take(v.len() as int) =~= v@);
    while k > 0 && v[k - 1] != '.'
        invariant
            k <= v.len(),
            last_dot(v@) == last_dot(v@.take(k as int)),
        decreases k,
    {
        assert(v@.take(k as int).drop_last() =~= v@.take(k - 1));
        k = k - 1;
    }
    if k > 0 {
        assert(v@.take(k as int).last() == '.');
        crate::text::slice_of(v, 0, k - 1)
    } else {
        assert(v@.take(0) =~= Seq::<char>::empty());
        crate::text::copy_chars(v)
    }
}

pub fn matches_item(item: &StartupItem, slow: &SlowService) -> (r: bool)
    ensures
        r == matches_spec(*item, *slow),
{
    let name = trim_chars(chars_of(slow.name.as_str()).as_slice());
    if name.len() == 0 {
        return false;
    }
    if slow.event_id == 103 && item.source == SourceKind::Service {
        return eq_ignore_case(chars_of(item.name.as_str()).as_slice(), name.as_slice());
    }
    let seps = two_chars('\\', '/');
    let file = trim_chars(after_last_exec(chars_of(item.resolved_path.as_str()).as_slice(), seps.as_slice()).as_slice());
    if file.len() == 0 {
        return false;
    }
    eq_ignore_case(stem_exec(file.as_slice()).as_slice(), stem_exec(name.as_slice()).as_slice())
}

/// The first slow-start record about the item.
pub open spec fn first_slow(item: StartupItem, slows: Seq<SlowService>) -> Option<int>
    decreases slows.len(),
{
    if slows.len() == 0 {
        None
    } else if matches_spec(item, slows[0]) {
        Some(0)
    } else {
        match first_slow(item, slows.drop_first()) {
            Some(i) => Some(i + 1),
            None => None,
        }
    }
}

fn find_slow_entry(item: &StartupItem, slows: &Vec<SlowService>) -> (r: Option<usize>)
    ensures
        match r {
            Some(i) => i < slows@.len() && first_slow(*item, slows@) == Some(i as int),
            None => first_slow(*item, slows@) is None,
        },
{
    let mut i: usize = 0;
    assert(slows@.skip(0) =~= slows@);
    while i < slows.len()
        invariant
            i <= slows.len(),
            first_slow(*item, slows@) == match first_slow(*item, slows@.skip(i as int)) {
                Some(j) => Some(j + i),
                None => None,
            },
        decreases slows.len() - i,
    {
        let ghost rest = slows@.skip(i as int);
        assert(rest[0] == slows@[i as int]);
        assert(rest.drop_first() =~= slows@.skip(i + 1));
        if matches_item(item, &slows[i]) {
            return Some(i);
        }
        i = i + 1;
    }
    None
}

/// The first phase of the time line with this name.
pub open spec fn first_phase(phases: Seq<crate::model::PhaseSpan>, name: BootPhase) -> Option<int>
    decreases phases.len(),
{
    if phases.len() == 0 {
        None
    } else if phases[0].name == name {
        Some(0)
    } else {
        match first_phase(phases.drop_first(), name) {
            Some(i) => Some(i + 1),
            None => None,
        }
    }
}

/// Timing as confidence, phase start, duration, event, appearance, read
/// bytes, time of the sample, and impact.
pub type TimingView = (Confidence, Option<u64>, Option<u64>, Option<u32>, Option<u64>, Option<u64>, Option<u64>, Option<ItemImpact>);

pub open spec fn timing_view(t: ItemTiming) -> TimingView {
    (t.confidence, t.start_estimate_ms, t.duration_ms, t.source_event_id, t.observed_start_ms, t.read_bytes, t.observed_at_ms, t.impact)
}

/// The timing an item gets: a measured duration when the event log has a
/// slow-start record of it (and its appearance too, when it was seen);
/// else its appearance when its process was seen; else the start of its
/// phase, marked as an estimate, when the time line has that phase; else
/// what it had. The impact is kept in every case.
pub open spec fn attributed_timing(item: StartupItem, ks: Seq<Option<Seq<char>>>, timeline: BootTimeline, snap: Snapshot) -> TimingView {
    let impact = item.timing.impact;
    let obs = observe_spec(item, ks, snap.procs@);
    match first_slow(item, timeline.slow_services@) {
        Some(k) => {
            let s = timeline.slow_services@[k];
            match obs {
                Some(j) => (Confidence::Measured, None, Some(s.duration_ms), Some(s.event_id),
                    Some(snap.procs@[j].start_offset_ms), Some(snap.procs@[j].read_bytes), snap.captured_at_offset_ms, impact),
                None => (Confidence::Measured, None, Some(s.duration_ms), Some(s.event_id), None, None, None, impact),
            }
        },
        None => match obs {
            Some(j) => (Confidence::Observed, None, None, None,
                Some(snap.procs@[j].start_offset_ms), Some(snap.procs@[j].read_bytes), snap.captured_at_offset_ms, impact),
            None => if timeline.phases@.len() == 0 || item.boot_phase == BootPhase::Unknown {
                timing_view(item.timing)
            } else {
                match first_phase(timeline.phases@, item.boot_phase) {
                    Some(k) => (Confidence::Estimated, Some(timeline.phases@[k].start_ms), None, Some(100u32), None, None, None, impact),
                    None => timing_view(item.timing),
                }
            },
        },
    }
}

pub type DiagView = (Seq<char>, RiskLevel, Seq<char>, Option<Seq<char>>);

pub open spec fn diag_views(v: Seq<DiagnosticInfo>) -> Seq<DiagView> {
    v.map_values(|d: DiagnosticInfo| diag_view(d))
}

/// The note of a measured slow start.
pub open spec fn slow_diag(s: SlowService) -> DiagView {
    (
        codes::SLOW_START@,
        RiskLevel::Medium,
        "系统记录了它上一次开机启动花了 "@ + one_decimal(s.duration_ms as nat, 1000) + " 秒，其中 "@
            + one_decimal(s.degradation_ms as nat, 1000) + " 秒是超出正常水平的。"@,
        Some("EventID="@ + decimal(s.event_id as nat) + "，TotalTime="@ + decimal(s.duration_ms as nat)
            + "ms，DegradationTime="@ + decimal(s.degradation_ms as nat) + "ms"@),
    )
}

/// The notes an item gets: a measured slow start of at least
/// `MIN_REPORTED_DEGRADATION_MS` extra is worth a note.
pub open spec fn attributed_diags(item: StartupItem, timeline: BootTimeline) -> Seq<DiagView> {
    let d = diag_views(item.diagnostics@);
    match first_slow(item, timeline.slow_services@) {
        Some(k) => if timeline.slow_services@[k].degradation_ms >= MIN_REPORTED_DEGRADATION_MS {
            d.push(slow_diag(timeline.slow_services@[k]))
        } else {
            d
        },
        None => d,
    }
}

/// Two items that differ at most in timing and diagnoses.
pub open spec fn same_but_cost(a: StartupItem, b: StartupItem) -> bool {
    &&& a.id == b.id && a.source == b.source && a.identity_key == b.identity_key && a.name == b.name
    &&& a.kind == b.kind && a.display_name == b.display_name && a.name_from == b.name_from
    &&& a.summary == b.summary && a.command == b.command && a.resolved_path == b.resolved_path
    &&& a.args == b.args && a.location == b.location && a.scope == b.scope && a.enabled == b.enabled
    &&& a.signer == b.signer && a.icon_data == b.icon_data && a.risk == b.risk
    &&& a.risk_reasons == b.risk_reasons && a.boot_phase == b.boot_phase && a.validity == b.validity
    &&& a.validity_detail == b.validity_detail && a.recommendation == b.recommendation
    &&& a.duplicate_of == b.duplicate_of && a.raw == b.raw && a.desired == b.desired
    &&& a.snapshot_ref == b.snapshot_ref
}

fn slow_note(s: &SlowService) -> (d: DiagnosticInfo)
    ensures
        diag_view(d) == slow_diag(*s),
{
    let mut m = owned("系统记录了它上一次开机启动花了 ");
    push_one_decimal(&mut m, s.duration_ms, 1000);
    push_str(&mut m, " 秒，其中 ");
    push_one_decimal(&mut m, s.degradation_ms, 1000);
    push_str(&mut m, " 秒是超出正常水平的。");
    let mut e = owned("EventID=");
    push_decimal(&mut e, s.event_id as u64);
    push_str(&mut e, "，TotalTime=");
    push_decimal(&mut e, s.duration_ms);
    push_str(&mut e, "ms，DegradationTime=");
    push_decimal(&mut e, s.degradation_ms);
    push_str(&mut e, "ms");
    DiagnosticInfo { code: owned(codes::SLOW_START), severity: RiskLevel::Medium, message: m, evidence: Some(e) }
}

fn find_phase(phases: &Vec<crate::model::PhaseSpan>, name: BootPhase) -> (r: Option<usize>)
    ensures
        match r {
            Some(i) => i < phases@.len() && first_phase(phases@, name) == Some(i as int),
            None => first_phase(phases@, name) is None,
        },
{
    let mut i: usize = 0;
    assert(phases@.skip(0) =~= phases@);
    while i < phases.len()
        invariant
            i <= phases.len(),
            first_phase(phases@, name) == match first_phase(phases@.skip(i as int), name) {
                Some(j) => Some(j + i),
                None => None,
            },
        decreases phases.len() - i,
    {
        let ghost rest = phases@.skip(i as int);
        assert(rest[0] == phases@[i as int]);
        assert(rest.drop_first() =~= phases@.skip(i + 1));
        if phases[i].name == name {
            return Some(i);
        }
        i = i + 1;
    }
    None
}

fn copy_impact(i: &Option<ItemImpact>) -> (r: Option<ItemImpact>)
    ensures
        r == *i,
{
    match i {
        Some(x) => Some(ItemImpact {
            cpu_ms: x.cpu_ms,
            disk_bytes: x.disk_bytes,
            level: x.level,
            started_in_trace_ms: x.started_in_trace_ms,
            process_count: x.process_count,
        }),
        None => None,
    }
}

/// The timing and notes of one item.
fn cost_of(item: StartupItem, ks: &Vec<Option<String>>, all: Ghost<Seq<StartupItem>>, timeline: &BootTimeline, snapshot: &Snapshot) -> (r: StartupItem)
    requires
        ks@.len() == all@.len(),
        forall|i: int| 0 <= i < all@.len() ==> opt_chars(#[trigger] ks@[i]) == exe_key_spec(all@[i].resolved_path@),
    ensures
        same_but_cost(item, r),
        timing_view(r.timing) == attributed_timing(item, keys_spec(all@), *timeline, *snapshot),
        diag_views(r.diagnostics@) == attributed_diags(item, *timeline),
{
    let mut item = item;
    let ghost old_item = item;
    let impact = copy_impact(&item.timing.impact);
    let observed: Option<usize> = match exe_key(item.resolved_path.as_str()) {
        Some(k) => if owners(ks, k.as_str(), all) {
            find_proc(&snapshot.procs, k.as_str())
        } else {
            None
        },
        None => None,
    };
    match find_slow_entry(&item, &timeline.slow_services) {
        Some(k) => {
            let s = &timeline.slow_services[k];
            let mut t = ItemTiming::default();
            t.confidence = Confidence::Measured;
            t.duration_ms = Some(s.duration_ms);
            t.source_event_id = Some(s.event_id);
            if s.degradation_ms >= MIN_REPORTED_DEGRADATION_MS {
                let ghost before = diag_views(item.diagnostics@);
                let d = slow_note(s);
                item.diagnostics.push(d);
                assert(diag_views(item.diagnostics@) =~= before.push(slow_diag(*s)));
            }
            match observed {
                Some(j) => {
                    let p = &snapshot.procs[j];
                    t.observed_start_ms = Some(p.start_offset_ms);
                    t.read_bytes = Some(p.read_bytes);
                    t.observed_at_ms = snapshot.captured_at_offset_ms;
                },
                None => {},
            }
            t.impact = impact;
            item.timing = t;
        },
        None => {
            match observed {
                Some(j) => {
                    let p = &snapshot.procs[j];
                    let mut t = ItemTiming::default();
                    t.confidence = Confidence::Observed;
                    t.observed_start_ms = Some(p.start_offset_ms);
                    t.read_bytes = Some(p.read_bytes);
                    t.observed_at_ms = snapshot.captured_at_offset_ms;
                    t.impact = impact;
                    item.timing = t;
                },
                None => {
                    if timeline.phases.len() > 0 && item.boot_phase != BootPhase::Unknown {
                        match find_phase(&timeline.phases, item.boot_phase) {
                            Some(k) => {
                                let mut t = ItemTiming::default();
                                t.confidence = Confidence::Estimated;
                                t.start_estimate_ms = Some(timeline.phases[k].start_ms);
                                t.source_event_id = Some(100);
                                t.impact = impact;
                                item.timing = t;
                            },
                            None => {},
                        }
                    }
                },
            }
        },
    }
    item
}

/// Attributes the boot's cost to the items, in place: a measured duration
/// from the event log's slow-start records; the appearance of the item's
/// process in the sample, only for a file name no other item claims; else
/// the start of the item's phase, marked as an estimate. Each field is
/// filled only from data that was found, and the impact an item already
/// has is kept.
pub fn attribute(items: &mut Vec<StartupItem>, timeline: &BootTimeline, snapshot: &Snapshot)
    ensures
        final(items)@.len() == old(items)@.len(),
        forall|i: int| 0 <= i < old(items)@.len() ==> {
            &&& same_but_cost(old(items)@[i], #[trigger] final(items)@[i])
            &&& timing_view(final(items)@[i].timing) == attributed_timing(old(items)@[i], keys_spec(old(items)@), *timeline, *snapshot)
            &&& diag_views(final(items)@[i].diagnostics@) == attributed_diags(old(items)@[i], *timeline)
        },
{
    let ghost s = items@;
    let ks = item_keys(items);
    let n = items.len();
    let mut i: usize = 0;
    while i < n
        invariant
            n == items.len(),
            n == s.len(),
            i <= n,
            ks@.len() == s.len(),
            forall|k: int| 0 <= k < s.len() ==> opt_chars(#[trigger] ks@[k]) == exe_key_spec(s[k].resolved_path@),
            forall|k: int| 0 <= k < i ==> {
                &&& same_but_cost(s[k], #[trigger] items@[k])
                &&& timing_view(items@[k].timing) == attributed_timing(s[k], keys_spec(s), *timeline, *snapshot)
                &&& diag_views(items@[k].diagnostics@) == attributed_diags(s[k], *timeline)
            },
            forall|k: int| i <= k < n ==> #[trigger] items@[k] == s[k],
        decreases n - i,
    {
        let it = items.remove(i);
        let done = cost_of(it, &ks, Ghost(s), timeline, snapshot);
        items.insert(i, done);
        i = i + 1;
    }
}

// ───────────────────────── the impact Windows measured ─────────────────────────

pub open spec fn record_views(v: Seq<StartupInfoRecord>) -> Seq<(Seq<char>, Seq<char>, u32, Option<u64>, u64, u64)> {
    v.map_values(|r: StartupInfoRecord| r@)
}

/// The records of one program, in order.
pub open spec fn records_of(recs: Seq<StartupInfoRecord>, key: Seq<char>) -> Seq<StartupInfoRecord>
    decreases recs.len(),
{
    if recs.len() == 0 {
        Seq::empty()
    } else if recs.last().exe@ == key {
        records_of(recs.drop_last(), key).push(recs.last())
    } else {
        records_of(recs.drop_last(), key)
    }
}

pub open spec fn sum_cpu(recs: Seq<StartupInfoRecord>) -> nat
    decreases recs.len(),
{
    if recs.len() == 0 {
        0
    } else {
        sum_cpu(recs.drop_last()) + recs.last().cpu_ms as nat
    }
}

pub open spec fn sum_disk(recs: Seq<StartupInfoRecord>) -> nat
    decreases recs.len(),
{
    if recs.len() == 0 {
        0
    } else {
        sum_disk(recs.drop_last()) + recs.last().disk_bytes as nat
    }
}

/// The earliest start among the records that have one.
pub open spec fn earliest_start(recs: Seq<StartupInfoRecord>) -> Option<u64>
    decreases recs.len(),
{
    if recs.len() == 0 {
        None
    } else {
        let rest = earliest_start(recs.drop_last());
        match recs.last().started_in_trace_ms {
            Some(t) => match rest {
                Some(u) => Some(if t < u { t } else { u }),
                None => Some(t),
            },
            None => rest,
        }
    }
}

/// The impact of one program: CPU and disk summed over its processes (two
/// processes of one program both count), the earliest start, the level
/// from the sums.
pub open spec fn aggregate_spec(recs: Seq<StartupInfoRecord>) -> (nat, nat, Option<u64>, nat) {
    (sum_cpu(recs), sum_disk(recs), earliest_start(recs), recs.len())
}

pub open spec fn impact_matches(i: ItemImpact, recs: Seq<StartupInfoRecord>) -> bool {
    &&& i.cpu_ms == sum_cpu(recs)
    &&& i.disk_bytes == sum_disk(recs)
    &&& i.level == level_spec(i.cpu_ms, i.disk_bytes)
    &&& i.started_in_trace_ms == earliest_start(recs)
    &&& i.process_count == recs.len()
}

proof fn lemma_sums_bounded(recs: Seq<StartupInfoRecord>, key: Seq<char>)
    ensures
        sum_cpu(records_of(recs, key)) <= sum_cpu(recs),
        sum_disk(records_of(recs, key)) <= sum_disk(recs),
    decreases recs.len(),
{
    if recs.len() > 0 {
        lemma_sums_bounded(recs.drop_last(), key);
        let x = records_of(recs.drop_last(), key);
        if recs.last().exe@ == key {
            assert(x.push(recs.last()).drop_last() =~= x);
        }
    }
}

fn aggregate(recs: &Vec<StartupInfoRecord>, key: &str) -> (r: Option<ItemImpact>)
    requires
        sum_cpu(recs@) <= u64::MAX,
        sum_disk(recs@) <= u64::MAX,
    ensures
        match r {
            Some(i) => records_of(recs@, key@).len() > 0 && impact_matches(i, records_of(recs@, key@)),
            None => records_of(recs@, key@).len() == 0,
        },
{
    proof {
        lemma_sums_bounded(recs@, key@);
    }
    let k = chars_of(key);
    let mut cpu: u64 = 0;
    let mut disk: u64 = 0;
    let mut start: Option<u64> = None;
    let mut count: usize = 0;
    let mut i: usize = 0;
    while i < recs.len()
        invariant
            i <= recs.len(),
            k@ == key@,
            sum_cpu(recs@) <= u64::MAX,
            sum_disk(recs@) <= u64::MAX,
            cpu == sum_cpu(records_of(recs@.take(i as int), key@)),
            disk == sum_disk(records_of(recs@.take(i as int), key@)),
            start == earliest_start(records_of(recs@.take(i as int), key@)),
            count == records_of(recs@.take(i as int), key@).len(),
            count <= i,
        decreases recs.len() - i,
    {
        let ghost t = recs@.take(i + 1);
        assert(t.drop_last() =~= recs@.take(i as int));
        assert(t.last() == recs@[i as int]);
        proof {
            lemma_sums_bounded(t, key@);
            lemma_prefix_sums(recs@, i + 1);
        }
        let r = &recs[i];
        let ghost x = records_of(recs@.take(i as int), key@);
        proof {
            if r.exe@ == key@ {
                assert(records_of(t, key@) == x.push(*r));
                assert(x.push(*r).drop_last() =~= x);
                assert(x.push(*r).last() == *r);
            } else {
                assert(records_of(t, key@) == x);
            }
        }
        if chars_eq(chars_of(r.exe.as_str()).as_slice(), k.as_slice()) {
            cpu = cpu + r.cpu_ms;
            disk = disk + r.disk_bytes;
            start = match r.started_in_trace_ms {
                Some(x) => match start {
                    Some(u) => Some(if x < u { x } else { u }),
                    None => Some(x),
                },
                None => start,
            };
            count = count + 1;
        }
        i = i + 1;
    }
    assert(recs@.take(recs.len() as int) =~= recs@);
    if count == 0 {
        return None;
    }
    Some(ItemImpact { cpu_ms: cpu, disk_bytes: disk, level: level_of(cpu, disk), started_in_trace_ms: start, process_count: count })
}

proof fn lemma_prefix_sums(recs: Seq<StartupInfoRecord>, n: int)
    requires
        0 <= n <= recs.len(),
    ensures
        sum_cpu(recs.take(n)) <= sum_cpu(recs),
        sum_disk(recs.take(n)) <= sum_disk(recs),
    decreases recs.len() - n,
{
    if n < recs.len() {
        lemma_prefix_sums(recs, n + 1);
        let t = recs.take(n + 1);
        assert(t.drop_last() =~= recs.take(n));
    } else {
        assert(recs.take(n) =~= recs);
    }
}

/// The note of a high impact, in the Task Manager's own terms.
pub open spec fn high_impact_diag(i: ItemImpact, path: Seq<char>) -> DiagView {
    (
        codes::HIGH_STARTUP_IMPACT@,
        RiskLevel::Medium,
        "开机登录后这段时间里，它用了 "@ + one_decimal(i.cpu_ms as nat, 1000) + " 秒 CPU、读了 "@
            + one_decimal(i.disk_bytes as nat, 1048576) + " MB 磁盘，属于「高启动影响」——任务管理器里它的启动影响也是「高」。"@,
        Some("WDI StartupInfo：CpuUsage="@ + decimal(i.cpu_ms as nat) + "ms，DiskUsage="@ + decimal(i.disk_bytes as nat)
            + "bytes，进程数="@ + decimal(i.process_count as nat) + "，映像="@ + path),
    )
}

fn high_impact_note(i: &ItemImpact, path: &str) -> (d: DiagnosticInfo)
    ensures
        diag_view(d) == high_impact_diag(*i, path@),
{
    let mut m = owned("开机登录后这段时间里，它用了 ");
    push_one_decimal(&mut m, i.cpu_ms, 1000);
    push_str(&mut m, " 秒 CPU、读了 ");
    push_one_decimal(&mut m, i.disk_bytes, 1048576);
    push_str(&mut m, " MB 磁盘，属于「高启动影响」——任务管理器里它的启动影响也是「高」。");
    let mut e = owned("WDI StartupInfo：CpuUsage=");
    push_decimal(&mut e, i.cpu_ms);
    push_str(&mut e, "ms，DiskUsage=");
    push_decimal(&mut e, i.disk_bytes);
    push_str(&mut e, "bytes，进程数=");
    push_decimal(&mut e, i.process_count as u64);
    push_str(&mut e, "，映像=");
    push_str(&mut e, path);
    DiagnosticInfo { code: owned(codes::HIGH_STARTUP_IMPACT), severity: RiskLevel::Medium, message: m, evidence: Some(e) }
}

pub open spec fn has_code(ds: Seq<DiagnosticInfo>, code: Seq<char>) -> bool {
    exists|k: int| 0 <= k < ds.len() && (#[trigger] ds[k]).code@ == code
}

/// Whether an item gets an impact: its file name is claimed by no other
/// item and the report has records of it.
pub open spec fn impact_key(item: StartupItem, ks: Seq<Option<Seq<char>>>, recs: Seq<StartupInfoRecord>) -> Option<Seq<char>> {
    match exe_key_spec(item.resolved_path@) {
        Some(k) => if count_in(ks, k) == 1 && records_of(recs, k).len() > 0 {
            Some(k)
        } else {
            None
        },
        None => None,
    }
}

/// How many items get an impact.
pub open spec fn impact_matched(items: Seq<StartupItem>, ks: Seq<Option<Seq<char>>>, recs: Seq<StartupInfoRecord>) -> nat
    decreases items.len(),
{
    if items.len() == 0 {
        0
    } else {
        impact_matched(items.drop_last(), ks, recs) + (if impact_key(items.last(), ks, recs) is Some { 1nat } else { 0nat })
    }
}

/// Two items that differ at most in the impact and the notes.
pub open spec fn same_but_impact(a: StartupItem, b: StartupItem) -> bool {
    &&& same_but_cost(a, b)
    &&& a.timing.confidence == b.timing.confidence && a.timing.start_estimate_ms == b.timing.start_estimate_ms
    &&& a.timing.duration_ms == b.timing.duration_ms && a.timing.source_event_id == b.timing.source_event_id
    &&& a.timing.observed_start_ms == b.timing.observed_start_ms && a.timing.read_bytes == b.timing.read_bytes
    &&& a.timing.observed_at_ms == b.timing.observed_at_ms
}

/// What the impact step does to one item.
pub open spec fn impact_done(before: StartupItem, after: StartupItem, ks: Seq<Option<Seq<char>>>, recs: Seq<StartupInfoRecord>) -> bool {
    &&& same_but_impact(before, after)
    &&& match impact_key(before, ks, recs) {
        Some(k) => {
            &&& after.timing.impact matches Some(i) && impact_matches(i, records_of(recs, k))
            &&& diag_views(after.diagnostics@) == if level_spec(sum_cpu(records_of(recs, k)) as u64, sum_disk(records_of(recs, k)) as u64) == ImpactLevel::High
                && !has_code(before.diagnostics@, codes::HIGH_STARTUP_IMPACT@) {
                diag_views(before.diagnostics@).push(high_impact_diag(after.timing.impact.unwrap(), before.resolved_path@))
            } else {
                diag_views(before.diagnostics@)
            }
        },
        None => after.timing.impact == before.timing.impact && after.diagnostics == before.diagnostics,
    }
}

fn has_code_exec(ds: &Vec<DiagnosticInfo>, code: &str) -> (r: bool)
    ensures
        r == has_code(ds@, code@),
{
    let c = chars_of(code);
    let mut i: usize = 0;
    while i < ds.len()
        invariant
            i <= ds.len(),
            c@ == code@,
            forall|k: int| 0 <= k < i ==> (#[trigger] ds@[k]).code@ != code@,
        decreases ds.len() - i,
    {
        if chars_eq(chars_of(ds[i].code.as_str()).as_slice(), c.as_slice()) {
            return true;
        }
        i = i + 1;
    }
    false
}

/// Attributes the impact Windows measured in the logon window to the
/// items: all records of a program are summed (two processes of one
/// program are one item's cost), but only for a file name that no other
/// item claims; a high impact gets one note, not repeated. The overview
/// tells how many records there were and how many items got an impact.
pub fn attribute_impact(items: &mut Vec<StartupItem>, report: &StartupInfoReport, overview: &mut ImpactOverview)
    requires
        sum_cpu(report.records@) <= u64::MAX,
        sum_disk(report.records@) <= u64::MAX,
    ensures
        final(items)@.len() == old(items)@.len(),
        forall|i: int| 0 <= i < old(items)@.len() ==> impact_done(old(items)@[i], #[trigger] final(items)@[i], keys_spec(old(items)@), report.records@),
        final(overview).record_count == report.records@.len(),
        final(overview).matched_count == impact_matched(old(items)@, keys_spec(old(items)@), report.records@),
        final(overview).window_ms == old(overview).window_ms,
        final(overview).source_sid == old(overview).source_sid,
        final(overview).is_current_user == old(overview).is_current_user,
        final(overview).source_file == old(overview).source_file,
        final(overview).unavailable_reason == old(overview).unavailable_reason,
{
    let ghost s = items@;
    let ghost ksv = keys_spec(s);
    overview.record_count = report.records.len();
    let ks = item_keys(items);
    let n = items.len();
    let mut matched: usize = 0;
    let mut i: usize = 0;
    assert(s.take(0) =~= Seq::<StartupItem>::empty());
    while i < n
        invariant
            n == items.len(),
            n == s.len(),
            i <= n,
            ksv == keys_spec(s),
            ks@.len() == s.len(),
            forall|k: int| 0 <= k < s.len() ==> opt_chars(#[trigger] ks@[k]) == exe_key_spec(s[k].resolved_path@),
            sum_cpu(report.records@) <= u64::MAX,
            sum_disk(report.records@) <= u64::MAX,
            matched == impact_matched(s.take(i as int), ksv, report.records@),
            matched <= i,
            forall|k: int| 0 <= k < i ==> impact_done(s[k], #[trigger] items@[k], ksv, report.records@),
            forall|k: int| i <= k < n ==> #[trigger] items@[k] == s[k],
        decreases n - i,
    {
        assert(s.take(i + 1).drop_last() =~= s.take(i as int));
        assert(s.take(i + 1).last() == s[i as int]);
        let mut it = items.remove(i);
        assert(it == s[i as int]);
        let key = exe_key(it.resolved_path.as_str());
        let mut got = false;
        match key {
            Some(k) => {
                if owners(&ks, k.as_str(), Ghost(s)) {
                    match aggregate(&report.records, k.as_str()) {
                        Some(impact) => {
                            if impact.level == ImpactLevel::High {
                                if !has_code_exec(&it.diagnostics, codes::HIGH_STARTUP_IMPACT) {
                                    let ghost before = diag_views(it.diagnostics@);
                                    let d = high_impact_note(&impact, it.resolved_path.as_str());
                                    it.diagnostics.push(d);
                                    assert(diag_views(it.diagnostics@) =~= before.push(high_impact_diag(impact, s[i as int].resolved_path@)));
                                }
                            }
                            it.timing.impact = Some(impact);
                            got = true;
                        },
                        None => {},
                    }
                }
            },
            None => {},
        }
        items.insert(i, it);
        if got {
            matched = matched + 1;
        }
        i = i + 1;
    }
    assert(s.take(n as int) =~= s);
    overview.matched_count = matched;
}

// ───────────────────────── laws ─────────────────────────

/// An item's duration is known only when it was measured.
pub open spec fn duration_honest(t: TimingView) -> bool {
    t.2 is Some ==> t.0 == Confidence::Measured
}

/// Attribution never makes up a duration: an item whose timing had none
/// unless measured has none afterwards unless measured (an observed start
/// or a phase estimate gives a start, never a duration), and the impact
/// already attributed is kept.
pub proof fn lemma_duration_only_when_measured(item: StartupItem, ks: Seq<Option<Seq<char>>>, timeline: BootTimeline, snap: Snapshot)
    requires
        duration_honest(timing_view(item.timing)),
    ensures
        duration_honest(attributed_timing(item, ks, timeline, snap)),
        attributed_timing(item, ks, timeline, snap).7 == item.timing.impact,
{
}

proof fn lemma_first_slow_same_item(x: StartupItem, y: StartupItem, slows: Seq<SlowService>)
    requires
        x.source == y.source,
        x.name == y.name,
        x.resolved_path == y.resolved_path,
    ensures
        first_slow(x, slows) == first_slow(y, slows),
    decreases slows.len(),
{
    if slows.len() > 0 {
        assert(matches_spec(x, slows[0]) == matches_spec(y, slows[0]));
        lemma_first_slow_same_item(x, y, slows.drop_first());
    }
}

/// The two attributions can run in either order: the impact step after the
/// time line's and the impact step before it leave every item with the same
/// timing. (`ys` then `ys2`: impact first; `zs` then `ws`: time line first.)
pub proof fn lemma_attribution_order_does_not_matter(
    xs: Seq<StartupItem>,
    ys: Seq<StartupItem>,
    ys2: Seq<StartupItem>,
    zs: Seq<StartupItem>,
    ws: Seq<StartupItem>,
    timeline: BootTimeline,
    snap: Snapshot,
    recs: Seq<StartupInfoRecord>,
)
    requires
        ys.len() == xs.len() && ys2.len() == xs.len() && zs.len() == xs.len() && ws.len() == xs.len(),
        forall|i: int| 0 <= i < xs.len() ==> impact_done(xs[i], #[trigger] ys[i], keys_spec(xs), recs),
        forall|i: int| 0 <= i < xs.len() ==> same_but_cost(ys[i], #[trigger] ys2[i])
            && timing_view(ys2[i].timing) == attributed_timing(ys[i], keys_spec(ys), timeline, snap),
        forall|i: int| 0 <= i < xs.len() ==> same_but_cost(xs[i], #[trigger] zs[i])
            && timing_view(zs[i].timing) == attributed_timing(xs[i], keys_spec(xs), timeline, snap),
        forall|i: int| 0 <= i < xs.len() ==> impact_done(zs[i], #[trigger] ws[i], keys_spec(zs), recs),
    ensures
        forall|i: int| 0 <= i < xs.len() ==> timing_view(#[trigger] ys2[i].timing) == timing_view(ws[i].timing),
{
    assert(keys_spec(ys) =~= keys_spec(xs)) by {
        assert forall|i: int| 0 <= i < xs.len() implies keys_spec(ys)[i] == keys_spec(xs)[i] by {
            assert(impact_done(xs[i], ys[i], keys_spec(xs), recs));
        }
    }
    assert(keys_spec(zs) =~= keys_spec(xs)) by {
        assert forall|i: int| 0 <= i < xs.len() implies keys_spec(zs)[i] == keys_spec(xs)[i] by {
            assert(same_but_cost(xs[i], zs[i]));
        }
    }
    assert forall|i: int| 0 <= i < xs.len() implies timing_view(#[trigger] ys2[i].timing) == timing_view(ws[i].timing) by {
        let (x, y, y2, z, w) = (xs[i], ys[i], ys2[i], zs[i], ws[i]);
        assert(impact_done(x, y, keys_spec(xs), recs));
        assert(impact_done(z, w, keys_spec(zs), recs));
        assert(same_but_cost(y, y2));
        assert(same_but_cost(x, z));
        lemma_first_slow_same_item(x, y, timeline.slow_services@);
        assert(impact_key(z, keys_spec(zs), recs) == impact_key(x, keys_spec(xs), recs));
        assert(observe_spec(y, keys_spec(ys), snap.procs@) == observe_spec(x, keys_spec(xs), snap.procs@));
    }
}

} // verus!
