//! The boot time line.
//!
//! Event 100 carries absolute anchors (`BootPNPInitStartTimeMS`,
//! `SystemPNPInitStartTimeMS`, `SessionInitStartTimeMS`,
//! `WinLogonStartTimeMS`). A phase is drawn only when the anchors it needs
//! are there: a missing anchor loses that phase and no other, and no phase
//! is made up to look continuous.

use vstd::prelude::*;
use crate::diag::boot_log::{field, field_u64, BootLogOutcome, RawEvent};
use crate::diag::item_cost::{collect_slow, collect_slow_spec, slow_views};
use crate::model::{BootPhase, BootTimeline, PhaseSpan};
use crate::text::{opt_chars, push_str};

verus! {

/// A span, when it has a positive length; otherwise nothing.
pub open spec fn span(name: BootPhase, start: u64, end: u64) -> Seq<PhaseSpan> {
    if end > start {
        seq![PhaseSpan { name, start_ms: start, end_ms: end }]
    } else {
        Seq::empty()
    }
}

/// The user-session phases after Winlogon starts at `wl`: logon wait,
/// profile, shell, each advancing from the end of the previous one.
pub open spec fn user_phases(d: Map<Seq<char>, Seq<char>>, wl: u64) -> Seq<PhaseSpan> {
    let wait = field_u64(d, "UserLogonWaitDuration"@);
    let a = match wait {
        Some(x) => span(BootPhase::UserAuth, wl, wl.wrapping_add(x)),
        None => Seq::empty(),
    };
    let c1 = match wait {
        Some(x) => wl.wrapping_add(x),
        None => wl,
    };
    let profile = field_u64(d, "BootUserProfileProcessingTime"@);
    let b = match profile {
        Some(x) => span(BootPhase::UserInit, c1, c1.wrapping_add(x)),
        None => Seq::empty(),
    };
    let c2 = match profile {
        Some(x) => c1.wrapping_add(x),
        None => c1,
    };
    let c = match field_u64(d, "BootExplorerInitTime"@) {
        Some(x) => span(BootPhase::Shell, c2, c2.wrapping_add(x)),
        None => Seq::empty(),
    };
    a + b + c
}

/// The kernel-side phases between the four absolute anchors.
pub open spec fn anchored_spec(bp: Option<u64>, sp: Option<u64>, se: Option<u64>, wl: Option<u64>) -> Seq<PhaseSpan> {
    (match bp {
        Some(b) => span(BootPhase::Kernel, 0, b),
        None => Seq::empty(),
    }) + (match (bp, sp) {
        (Some(b), Some(s)) => span(BootPhase::Driver, b, s),
        _ => Seq::empty(),
    }) + (match (sp, se) {
        (Some(s), Some(e)) => span(BootPhase::Devices, s, e),
        _ => Seq::empty(),
    }) + (match (se, wl) {
        (Some(e), Some(w)) => span(BootPhase::Smss, e, w),
        _ => Seq::empty(),
    })
}

/// The phases that the anchors of event 100 give.
pub open spec fn phases_spec(d: Map<Seq<char>, Seq<char>>) -> Seq<PhaseSpan> {
    let wl = field_u64(d, "WinLogonStartTimeMS"@);
    anchored_spec(
        field_u64(d, "BootPNPInitStartTimeMS"@),
        field_u64(d, "SystemPNPInitStartTimeMS"@),
        field_u64(d, "SessionInitStartTimeMS"@),
        wl,
    ) + (match wl {
        Some(w) => user_phases(d, w),
        None => Seq::empty(),
    })
}

fn push_span(out: &mut Vec<PhaseSpan>, name: BootPhase, start: u64, end: u64)
    ensures
        final(out)@ == old(out)@ + span(name, start, end),
{
    if end > start {
        out.push(PhaseSpan { name, start_ms: start, end_ms: end });
        assert(out@ =~= old(out)@ + span(name, start, end));
    } else {
        assert(out@ =~= old(out)@ + span(name, start, end));
    }
}

fn anchored_phases(bp: Option<u64>, sp: Option<u64>, se: Option<u64>, wl: Option<u64>) -> (r: Vec<PhaseSpan>)
    ensures
        r@ == anchored_spec(bp, sp, se, wl),
{
    let mut out: Vec<PhaseSpan> = Vec::new();
    match bp {
        Some(b) => push_span(&mut out, BootPhase::Kernel, 0, b),
        None => {},
    }
    let ghost s1 = out@;
    match (bp, sp) {
        (Some(b), Some(s)) => push_span(&mut out, BootPhase::Driver, b, s),
        _ => {},
    }
    let ghost s2 = out@;
    match (sp, se) {
        (Some(s), Some(x)) => push_span(&mut out, BootPhase::Devices, s, x),
        _ => {},
    }
    let ghost s3 = out@;
    match (se, wl) {
        (Some(x), Some(w)) => push_span(&mut out, BootPhase::Smss, x, w),
        _ => {},
    }
    assert(out@ =~= anchored_spec(bp, sp, se, wl));
    out
}

fn user_phases_exec(ev: &RawEvent, wl: u64) -> (r: Vec<PhaseSpan>)
    ensures
        r@ == user_phases(ev.data@, wl),
{
    let mut out: Vec<PhaseSpan> = Vec::new();
    let mut cursor = wl;
    let wait = ev.get_u64("UserLogonWaitDuration");
    if let Some(w) = wait {
        push_span(&mut out, BootPhase::UserAuth, cursor, cursor.wrapping_add(w));
        cursor = cursor.wrapping_add(w);
    }
    let profile = ev.get_u64("BootUserProfileProcessingTime");
    if let Some(p) = profile {
        push_span(&mut out, BootPhase::UserInit, cursor, cursor.wrapping_add(p));
        cursor = cursor.wrapping_add(p);
    }
    if let Some(sh) = ev.get_u64("BootExplorerInitTime") {
        push_span(&mut out, BootPhase::Shell, cursor, cursor.wrapping_add(sh));
    }
    assert(out@ =~= user_phases(ev.data@, wl));
    out
}

/// The phases of the boot event, from its absolute anchors.
pub fn phases_of(ev: &RawEvent) -> (r: Vec<PhaseSpan>)
    ensures
        r@ == phases_spec(ev.data@),
{
    let winlogon = ev.get_u64("WinLogonStartTimeMS");
    let mut out = anchored_phases(
        ev.get_u64("BootPNPInitStartTimeMS"),
        ev.get_u64("SystemPNPInitStartTimeMS"),
        ev.get_u64("SessionInitStartTimeMS"),
        winlogon,
    );
    let ghost s4 = out@;
    match winlogon {
        Some(wl) => {
            let mut tail = user_phases_exec(ev, wl);
            out.append(&mut tail);
        },
        None => {
            assert(out@ =~= s4 + Seq::<PhaseSpan>::empty());
        },
    }
    out
}

/// The first event 100, which is the newest boot (events come newest first).
pub open spec fn first_boot_from(events: Seq<RawEvent>, i: int) -> Option<int>
    decreases events.len() - i,
{
    if i < 0 || i >= events.len() {
        None
    } else if events[i].event_id == 100 {
        Some(i)
    } else {
        first_boot_from(events, i + 1)
    }
}

/// Each phase cut at `total`; phases left empty are dropped.
pub open spec fn clamp_phases(ps: Seq<PhaseSpan>, total: u64) -> Seq<PhaseSpan>
    decreases ps.len(),
{
    if ps.len() == 0 {
        ps
    } else {
        let rest = clamp_phases(ps.drop_last(), total);
        let p = ps.last();
        let end = if p.end_ms < total { p.end_ms } else { total };
        if end > p.start_ms {
            rest.push(PhaseSpan { name: p.name, start_ms: p.start_ms, end_ms: end })
        } else {
            rest
        }
    }
}

pub open spec fn overshoots(ps: Seq<PhaseSpan>, total: u64) -> bool {
    exists|i: int| 0 <= i < ps.len() && (#[trigger] ps[i]).end_ms > total
}

/// The phases of the boot event `d`: the anchored phases, then the
/// post-boot phase from `MainPathBootTime` to `BootTime`; when none can be
/// had, one phase over the whole boot; finally everything is cut at
/// `BootTime` when some phase runs past it.
pub open spec fn timeline_phases(d: Map<Seq<char>, Seq<char>>) -> Seq<PhaseSpan> {
    let main_path = field_u64(d, "MainPathBootTime"@);
    let boot_time = field_u64(d, "BootTime"@);
    let anchored = phases_spec(d);
    let with_post = match (main_path, boot_time) {
        (Some(m), Some(b)) => if b > m {
            anchored.push(PhaseSpan { name: BootPhase::Logon, start_ms: m, end_ms: b })
        } else {
            anchored
        },
        _ => anchored,
    };
    let filled = if with_post.len() == 0 {
        match boot_time {
            Some(t) if t > 0 => seq![PhaseSpan { name: BootPhase::Logon, start_ms: 0, end_ms: t }],
            _ => match main_path {
                Some(m) if m > 0 => seq![PhaseSpan { name: BootPhase::Logon, start_ms: 0, end_ms: m }],
                _ => Seq::empty(),
            },
        }
    } else {
        with_post
    };
    match boot_time {
        Some(t) => if overshoots(filled, t) {
            clamp_phases(filled, t)
        } else {
            filled
        },
        None => filled,
    }
}

pub const NO_BOOT_EVENT: &'static str = "日志里没有找到开机主事件，可能是「快速启动」一直在生效，系统没有走完整的引导流程";

pub const NEEDS_ADMIN: &'static str = "读取开机耗时需要管理员权限。Windows 的性能日志没有向普通账户开放读取权限。";

/// What `build_from_events` gives.
pub open spec fn timeline_from_events(events: Seq<RawEvent>, r: BootTimeline) -> bool {
    match first_boot_from(events, 0) {
        None => {
            &&& r.total_boot_ms is None
            &&& r.phases@.len() == 0
            &&& r.slow_services@.len() == 0
            &&& r.boot_started_at is None
            &&& opt_chars(r.unavailable_reason) == Some(NO_BOOT_EVENT@)
            &&& !r.needs_elevation
        },
        Some(i) => {
            let d = events[i].data@;
            &&& r.total_boot_ms == field_u64(d, "BootTime"@)
            &&& r.phases@ == timeline_phases(d)
            &&& slow_views(r.slow_services@) == collect_slow_spec(events)
            &&& opt_chars(r.boot_started_at) == field(d, "BootStartTime"@)
            &&& r.unavailable_reason is None
            &&& !r.needs_elevation
        },
    }
}

fn clamp(ps: Vec<PhaseSpan>, total: u64) -> (r: Vec<PhaseSpan>)
    ensures
        r@ == clamp_phases(ps@, total),
{
    let mut out: Vec<PhaseSpan> = Vec::new();
    let mut i: usize = 0;
    assert(ps@.take(0) =~= Seq::<PhaseSpan>::empty());
    while i < ps.len()
        invariant
            i <= ps.len(),
            out@ == clamp_phases(ps@.take(i as int), total),
        decreases ps.len() - i,
    {
        assert(ps@.take(i + 1).drop_last() =~= ps@.take(i as int));
        let p = &ps[i];
        let end = if p.end_ms < total { p.end_ms } else { total };
        if end > p.start_ms {
            out.push(PhaseSpan { name: p.name, start_ms: p.start_ms, end_ms: end });
        }
        i = i + 1;
    }
    assert(ps@.take(ps.len() as int) =~= ps@);
    out
}

/// Builds the time line from the events, newest first.
pub fn build_from_events(events: &[RawEvent]) -> (r: BootTimeline)
    ensures
        timeline_from_events(events@, r),
{
    let mut idx: usize = 0;
    while idx < events.len() && events[idx].event_id != 100
        invariant
            idx <= events.len(),
            first_boot_from(events@, 0) == first_boot_from(events@, idx as int),
        decreases events.len() - idx,
    {
        idx = idx + 1;
    }
    if idx == events.len() {
        let mut m = String::new();
        push_str(&mut m, NO_BOOT_EVENT);
        return BootTimeline {
            total_boot_ms: None,
            phases: Vec::new(),
            slow_services: Vec::new(),
            boot_started_at: None,
            unavailable_reason: Some(m),
            needs_elevation: false,
        };
    }
    let main = &events[idx];
    let ghost d = main.data@;
    let main_path = main.get_u64("MainPathBootTime");
    let boot_time = main.get_u64("BootTime");
    let mut phases = phases_of(main);
    if let (Some(mp), Some(bt)) = (main_path, boot_time) {
        if bt > mp {
            phases.push(PhaseSpan { name: BootPhase::Logon, start_ms: mp, end_ms: bt });
        }
    }
    if phases.len() == 0 {
        match boot_time {
            Some(t) if t > 0 => {
                phases.push(PhaseSpan { name: BootPhase::Logon, start_ms: 0, end_ms: t });
            },
            _ => match main_path {
                Some(mp) if mp > 0 => {
                    phases.push(PhaseSpan { name: BootPhase::Logon, start_ms: 0, end_ms: mp });
                },
                _ => {},
            },
        }
    }
    if let Some(total) = boot_time {
        let mut over = false;
        let mut k: usize = 0;
        while k < phases.len()
            invariant
                k <= phases.len(),
                over == exists|j: int| 0 <= j < k && (#[trigger] phases@[j]).end_ms > total,
            decreases phases.len() - k,
        {
            if phases[k].end_ms > total {
                over = true;
            }
            k = k + 1;
        }
        if over {
            phases = clamp(phases, total);
        }
    }
    let boot_started_at = match main.get("BootStartTime") {
        Some(s) => {
            let mut t = String::new();
            push_str(&mut t, s);
            Some(t)
        },
        None => None,
    };
    BootTimeline {
        total_boot_ms: boot_time,
        phases,
        slow_services: collect_slow(events),
        boot_started_at,
        unavailable_reason: None,
        needs_elevation: false,
    }
}

/// What `build` gives for a reading of the log.
pub open spec fn timeline_of_outcome(outcome: BootLogOutcome, r: BootTimeline) -> bool {
    match outcome {
        BootLogOutcome::AccessDenied => {
            &&& opt_chars(r.unavailable_reason) == Some(NEEDS_ADMIN@)
            &&& r.needs_elevation
            &&& r.total_boot_ms is None
            &&& r.phases@.len() == 0
            &&& r.slow_services@.len() == 0
            &&& r.boot_started_at is None
        },
        BootLogOutcome::Unavailable(why) => {
            &&& opt_chars(r.unavailable_reason) == Some(why@)
            &&& !r.needs_elevation
            &&& r.total_boot_ms is None
            &&& r.phases@.len() == 0
            &&& r.slow_services@.len() == 0
            &&& r.boot_started_at is None
        },
        BootLogOutcome::Events(evs) => timeline_from_events(evs@, r),
    }
}

/// Builds the time line from a reading of the log. No permission is marked
/// as such, so that the user is offered to retry as administrator; an
/// unavailable log is not.
pub fn build(outcome: &BootLogOutcome) -> (r: BootTimeline)
    ensures
        timeline_of_outcome(*outcome, r),
{
    match outcome {
        BootLogOutcome::AccessDenied => {
            let mut m = String::new();
            push_str(&mut m, NEEDS_ADMIN);
            BootTimeline {
                total_boot_ms: None,
                phases: Vec::new(),
                slow_services: Vec::new(),
                boot_started_at: None,
                unavailable_reason: Some(m),
                needs_elevation: true,
            }
        },
        BootLogOutcome::Unavailable(why) => BootTimeline {
            total_boot_ms: None,
            phases: Vec::new(),
            slow_services: Vec::new(),
            boot_started_at: None,
            unavailable_reason: Some(why.clone()),
            needs_elevation: false,
        },
        BootLogOutcome::Events(events) => build_from_events(events.as_slice()),
    }
}

proof fn lemma_in_concat(a: Seq<PhaseSpan>, b: Seq<PhaseSpan>, x: PhaseSpan)
    ensures
        a.contains(x) ==> (a + b).contains(x),
        b.contains(x) ==> (a + b).contains(x),
{
    if a.contains(x) {
        let i = choose|i: int| 0 <= i < a.len() && a[i] == x;
        assert((a + b)[i] == x);
    }
    if b.contains(x) {
        let i = choose|i: int| 0 <= i < b.len() && b[i] == x;
        assert((a + b)[a.len() + i] == x);
    }
}

proof fn lemma_span_contains(name: BootPhase, start: u64, end: u64)
    requires
        end > start,
    ensures
        span(name, start, end).contains(PhaseSpan { name, start_ms: start, end_ms: end }),
{
    assert(span(name, start, end)[0] == PhaseSpan { name, start_ms: start, end_ms: end });
}

/// A field's value, 0 when the field is absent.
pub open spec fn or_zero(v: Option<u64>) -> int {
    match v {
        Some(x) => x as int,
        None => 0,
    }
}

/// Every anchor of the boot event gives its phase, whatever else is
/// missing: the kernel up to `BootPNPInitStartTimeMS`, drivers from there
/// to `SystemPNPInitStartTimeMS`, devices up to `SessionInitStartTimeMS`,
/// the session manager up to `WinLogonStartTimeMS`; then, from Winlogon's
/// start `w`, the logon wait `a` (`UserLogonWaitDuration`), the profile
/// `p` (`BootUserProfileProcessingTime`) from `w + a` to `w + a + p`, and
/// the shell (`BootExplorerInitTime`) after it, where a duration that is
/// absent counts as 0. A phase of no length is not drawn, and a sum past
/// the range of `u64` is left out of the statement.
pub proof fn lemma_every_anchor_gives_its_phase(d: Map<Seq<char>, Seq<char>>)
    ensures
        ({
            let bp = field_u64(d, "BootPNPInitStartTimeMS"@);
            let sp = field_u64(d, "SystemPNPInitStartTimeMS"@);
            let se = field_u64(d, "SessionInitStartTimeMS"@);
            let wl = field_u64(d, "WinLogonStartTimeMS"@);
            let ps = phases_spec(d);
            &&& bp matches Some(b) ==> (b > 0 ==> ps.contains(PhaseSpan { name: BootPhase::Kernel, start_ms: 0, end_ms: b }))
            &&& (bp matches Some(b) ==> (sp matches Some(s) ==> (s > b ==>
                ps.contains(PhaseSpan { name: BootPhase::Driver, start_ms: b, end_ms: s }))))
            &&& (sp matches Some(s) ==> (se matches Some(e) ==> (e > s ==>
                ps.contains(PhaseSpan { name: BootPhase::Devices, start_ms: s, end_ms: e }))))
            &&& (se matches Some(e) ==> (wl matches Some(w) ==> (w > e ==>
                ps.contains(PhaseSpan { name: BootPhase::Smss, start_ms: e, end_ms: w }))))
        }),
        ({
            let wl = field_u64(d, "WinLogonStartTimeMS"@);
            let wait = field_u64(d, "UserLogonWaitDuration"@);
            let profile = field_u64(d, "BootUserProfileProcessingTime"@);
            let shell = field_u64(d, "BootExplorerInitTime"@);
            let a = or_zero(wait);
            let pz = or_zero(profile);
            let ps = phases_spec(d);
            wl matches Some(w) ==> {
                &&& (wait matches Some(x) ==> (x > 0 && w + x <= u64::MAX ==>
                    ps.contains(PhaseSpan { name: BootPhase::UserAuth, start_ms: w, end_ms: (w + x) as u64 })))
                &&& (profile matches Some(p) ==> (p > 0 && w + a + p <= u64::MAX ==>
                    ps.contains(PhaseSpan { name: BootPhase::UserInit, start_ms: (w + a) as u64, end_ms: (w + a + p) as u64 })))
                &&& (shell matches Some(x) ==> (x > 0 && w + a + pz + x <= u64::MAX ==>
                    ps.contains(PhaseSpan { name: BootPhase::Shell, start_ms: (w + a + pz) as u64, end_ms: (w + a + pz + x) as u64 })))
            }
        }),
{
    let bp = field_u64(d, "BootPNPInitStartTimeMS"@);
    let sp = field_u64(d, "SystemPNPInitStartTimeMS"@);
    let se = field_u64(d, "SessionInitStartTimeMS"@);
    let wl = field_u64(d, "WinLogonStartTimeMS"@);
    let k = match bp { Some(b) => span(BootPhase::Kernel, 0, b), None => Seq::empty() };
    let dr = match (bp, sp) { (Some(b), Some(s)) => span(BootPhase::Driver, b, s), _ => Seq::empty() };
    let dv = match (sp, se) { (Some(s), Some(e)) => span(BootPhase::Devices, s, e), _ => Seq::empty() };
    let sm = match (se, wl) { (Some(e), Some(w)) => span(BootPhase::Smss, e, w), _ => Seq::empty() };
    let u = match wl { Some(w) => user_phases(d, w), None => Seq::empty() };
    assert(phases_spec(d) == k + dr + dv + sm + u);
    let ps = phases_spec(d);
    assert forall|x: PhaseSpan| #![auto] k.contains(x) || dr.contains(x) || dv.contains(x) || sm.contains(x) || u.contains(x)
        implies ps.contains(x) by {
        lemma_in_concat(k, dr, x);
        lemma_in_concat(k + dr, dv, x);
        lemma_in_concat(k + dr + dv, sm, x);
        lemma_in_concat(k + dr + dv + sm, u, x);
    }
    if let Some(b) = bp {
        if b > 0 { lemma_span_contains(BootPhase::Kernel, 0, b); }
        if let Some(s) = sp {
            if s > b { lemma_span_contains(BootPhase::Driver, b, s); }
        }
    }
    if let Some(s) = sp {
        if let Some(e) = se {
            if e > s { lemma_span_contains(BootPhase::Devices, s, e); }
        }
    }
    if let Some(e) = se {
        if let Some(w) = wl {
            if w > e { lemma_span_contains(BootPhase::Smss, e, w); }
        }
    }
    if let Some(w) = wl {
        let wait = field_u64(d, "UserLogonWaitDuration"@);
        let profile = field_u64(d, "BootUserProfileProcessingTime"@);
        let shell = field_u64(d, "BootExplorerInitTime"@);
        let ua = match wait { Some(x) => span(BootPhase::UserAuth, w, w.wrapping_add(x)), None => Seq::empty() };
        let c1 = match wait { Some(x) => w.wrapping_add(x), None => w };
        let ub = match profile { Some(x) => span(BootPhase::UserInit, c1, c1.wrapping_add(x)), None => Seq::empty() };
        let c2 = match profile { Some(x) => c1.wrapping_add(x), None => c1 };
        let uc = match shell { Some(x) => span(BootPhase::Shell, c2, c2.wrapping_add(x)), None => Seq::empty() };
        assert(u == ua + ub + uc);
        assert forall|x: PhaseSpan| #![auto] ua.contains(x) || ub.contains(x) || uc.contains(x) implies u.contains(x) by {
            lemma_in_concat(ua, ub, x);
            lemma_in_concat(ua + ub, uc, x);
        }
        let a = or_zero(wait);
        let pz = or_zero(profile);
        if let Some(x) = wait {
            if x > 0 && w + x <= u64::MAX {
                lemma_span_contains(BootPhase::UserAuth, w, (w + x) as u64);
            }
        }
        if let Some(p) = profile {
            if p > 0 && w + a + p <= u64::MAX {
                assert(c1 == w + a);
                lemma_span_contains(BootPhase::UserInit, (w + a) as u64, (w + a + p) as u64);
            }
        }
        if let Some(x) = shell {
            if x > 0 && w + a + pz + x <= u64::MAX {
                assert(c1 == w + a);
                assert(c2 == w + a + pz);
                lemma_span_contains(BootPhase::Shell, (w + a + pz) as u64, (w + a + pz + x) as u64);
            }
        }
    }
}

} // verus!
