//! What is done to every scanned item, in a fixed order: identity and id,
//! kind, validity, duplicates, boot cost, impact, risk, advice.
//!
//! The order matters: duplicates leave broken items out, so validity comes
//! first; the risk reads the slow-start notes of the cost step; the advice
//! reads the risk. Each step is a function of its own, with its contract;
//! `finalize` runs them in this order.

use vstd::prelude::*;
use crate::advise::{advice_spec, advise, recommendation_view};
use crate::dedupe::{
    dedup_result, discriminator_of, discriminator_spec, id_seed, identity_key, identity_key_spec,
    mark_duplicates, marked_count, stable_id, uuid_v5_text, BOOTFLOW_NS,
};
use crate::diag::item_cost::{
    attribute, attribute_impact, attributed_diags, attributed_timing, diag_views, impact_done, keys_spec,
    same_but_cost, sum_cpu, sum_disk, timing_view,
};
use crate::diag::proc_snapshot::Snapshot;
use crate::diag::risk::{assess, assessed, strings_view};
use crate::diag::startup_info::StartupInfoReport;
use crate::model::{
    derive_kind, derive_kind_spec, BootTimeline, Confidence, ImpactOverview, RiskLevel, SourceKind,
    StartupItem, ValidityStatus,
};
use crate::snapshot::guard::mark_locked;

verus! {

/// What a pass over the items found.
#[derive(Debug, Clone, Copy)]
pub struct PipelineStats {
    pub total: usize,
    /// Items whose target is gone.
    pub dead: usize,
    pub not_executable: usize,
    pub unreachable: usize,
    pub duplicates: usize,
    /// Items that got advice.
    pub advised: usize,
    /// Items assessed as protected.
    pub locked: usize,
    /// Items with a duration measured by the event log.
    pub measured: usize,
    /// Items whose process was seen.
    pub observed: usize,
    /// Items with an impact measured by Windows.
    pub impacted: usize,
}

/// What the validity check of an item's target found (it reads the file
/// system, which is the caller's).
#[derive(Debug, Clone)]
pub struct ValidityCheck {
    pub status: ValidityStatus,
    pub detail: Option<String>,
    /// A note about the quoting of the command line, if it is suspicious.
    pub quote_note: Option<String>,
}

/// A stable name of each source for ids; an enum's debug name is not one.
pub open spec fn source_key_spec(s: SourceKind) -> &'static str {
    match s {
        SourceKind::StartupFolderUser => "sf-user",
        SourceKind::StartupFolderMachine => "sf-machine",
        SourceKind::RunUser => "run-user",
        SourceKind::RunMachine => "run-machine",
        SourceKind::RunMachine32 => "run-machine32",
        SourceKind::RunOnceUser => "runonce-user",
        SourceKind::RunOnceMachine => "runonce-machine",
        SourceKind::RunOnceMachine32 => "runonce-machine32",
        SourceKind::ScheduledTask => "task",
        SourceKind::Service => "svc",
        SourceKind::SystemHook => "hook",
    }
}

pub fn source_key(s: SourceKind) -> (r: &'static str)
    ensures
        r@ == source_key_spec(s)@,
{
    match s {
        SourceKind::StartupFolderUser => "sf-user",
        SourceKind::StartupFolderMachine => "sf-machine",
        SourceKind::RunUser => "run-user",
        SourceKind::RunMachine => "run-machine",
        SourceKind::RunMachine32 => "run-machine32",
        SourceKind::RunOnceUser => "runonce-user",
        SourceKind::RunOnceMachine => "runonce-machine",
        SourceKind::RunOnceMachine32 => "runonce-machine32",
        SourceKind::ScheduledTask => "task",
        SourceKind::Service => "svc",
        SourceKind::SystemHook => "hook",
    }
}

// ───────────────────────── the steps ─────────────────────────

/// Step one: every item's identity key and stable id.
pub open spec fn ids_step(a: Seq<StartupItem>, b: Seq<StartupItem>) -> bool {
    &&& a.len() == b.len()
    &&& forall|i: int| 0 <= i < a.len() ==> {
        &&& #[trigger] b[i] == (StartupItem { id: b[i].id, identity_key: b[i].identity_key, ..a[i] })
        &&& b[i].identity_key@ == identity_key_spec(a[i].resolved_path@, a[i].args@)
        &&& b[i].id@ == uuid_v5_text(BOOTFLOW_NS, id_seed(source_key_spec(a[i].source)@, b[i].identity_key@,
            discriminator_spec(a[i].location@, a[i].name@)))
        &&& b[i].id@.len() == 36
    }
}

pub fn assign_ids(items: &mut Vec<StartupItem>)
    ensures
        ids_step(old(items)@, final(items)@),
{
    let ghost s = items@;
    let n = items.len();
    let mut i: usize = 0;
    while i < n
        invariant
            n == items.len(),
            n == s.len(),
            i <= n,
            forall|k: int| 0 <= k < i ==> {
                &&& #[trigger] items@[k] == (StartupItem { id: items@[k].id, identity_key: items@[k].identity_key, ..s[k] })
                &&& items@[k].identity_key@ == identity_key_spec(s[k].resolved_path@, s[k].args@)
                &&& items@[k].id@ == uuid_v5_text(BOOTFLOW_NS, id_seed(source_key_spec(s[k].source)@, items@[k].identity_key@,
                    discriminator_spec(s[k].location@, s[k].name@)))
                &&& items@[k].id@.len() == 36
            },
            forall|k: int| i <= k < n ==> #[trigger] items@[k] == s[k],
        decreases n - i,
    {
        let mut it = items.remove(i);
        let key = identity_key(it.resolved_path.as_str(), it.args.as_slice());
        let disc = discriminator_of(&it);
        let id = stable_id(source_key(it.source), key.as_str(), disc.as_str());
        it.identity_key = key;
        it.id = id;
        items.insert(i, it);
        i = i + 1;
    }
}

/// Step two: every item's kind, from one rule only.
pub open spec fn kinds_step(a: Seq<StartupItem>, b: Seq<StartupItem>) -> bool {
    &&& a.len() == b.len()
    &&& forall|i: int| 0 <= i < a.len() ==> #[trigger] b[i] == (StartupItem {
        kind: derive_kind_spec(a[i].source, a[i].signer.is_os_component),
        ..a[i]
    })
}

pub fn assign_kinds(items: &mut Vec<StartupItem>)
    ensures
        kinds_step(old(items)@, final(items)@),
{
    let ghost s = items@;
    let n = items.len();
    let mut i: usize = 0;
    while i < n
        invariant
            n == items.len(),
            n == s.len(),
            i <= n,
            forall|k: int| 0 <= k < i ==> #[trigger] items@[k] == (StartupItem {
                kind: derive_kind_spec(s[k].source, s[k].signer.is_os_component),
                ..s[k]
            }),
            forall|k: int| i <= k < n ==> #[trigger] items@[k] == s[k],
        decreases n - i,
    {
        let mut it = items.remove(i);
        it.kind = derive_kind(it.source, &it.signer);
        items.insert(i, it);
        i = i + 1;
    }
}

/// The validity an item keeps: a scanner's own finding (anything but valid
/// or unknown) wins over the check.
pub open spec fn checked_validity(it: StartupItem, c: ValidityCheck) -> ValidityStatus {
    if it.validity is Valid || it.validity is Unknown {
        c.status
    } else {
        it.validity
    }
}

/// The detail kept: the scanner's, else the check's; for a valid item, a
/// quoting note replaces it.
pub open spec fn checked_detail(it: StartupItem, c: ValidityCheck) -> Option<String> {
    let d = if it.validity_detail is None { c.detail } else { it.validity_detail };
    if checked_validity(it, c) is Valid && c.quote_note is Some {
        c.quote_note
    } else {
        d
    }
}

/// Step three: every item's validity.
pub open spec fn validity_step(a: Seq<StartupItem>, checks: Seq<ValidityCheck>, b: Seq<StartupItem>) -> bool {
    &&& a.len() == b.len() && checks.len() == a.len()
    &&& forall|i: int| 0 <= i < a.len() ==> #[trigger] b[i] == (StartupItem {
        validity: checked_validity(a[i], checks[i]),
        validity_detail: checked_detail(a[i], checks[i]),
        ..a[i]
    })
}

pub open spec fn count_validity(s: Seq<StartupItem>, v: ValidityStatus) -> nat
    decreases s.len(),
{
    if s.len() == 0 {
        0
    } else {
        count_validity(s.drop_last(), v) + (if s.last().validity == v { 1nat } else { 0nat })
    }
}

/// Applies the checks (one per item, in order) and counts the missing,
/// non-executable and unreachable targets.
pub fn apply_validity(items: &mut Vec<StartupItem>, checks: Vec<ValidityCheck>) -> (r: (usize, usize, usize))
    requires
        checks@.len() == old(items)@.len(),
    ensures
        validity_step(old(items)@, checks@, final(items)@),
        r.0 == count_validity(final(items)@, ValidityStatus::MissingTarget),
        r.1 == count_validity(final(items)@, ValidityStatus::NotExecutable),
        r.2 == count_validity(final(items)@, ValidityStatus::Unreachable),
{
    let ghost s = items@;
    let ghost cs = checks@;
    let n = items.len();
    let mut checks = checks;
    let mut dead: usize = 0;
    let mut notx: usize = 0;
    let mut unr: usize = 0;
    let mut i: usize = 0;
    while i < n
        invariant
            n == items.len(),
            n == s.len(),
            n == cs.len(),
            i <= n,
            checks@ == cs.skip(i as int),
            forall|k: int| 0 <= k < i ==> #[trigger] items@[k] == (StartupItem {
                validity: checked_validity(s[k], cs[k]),
                validity_detail: checked_detail(s[k], cs[k]),
                ..s[k]
            }),
            forall|k: int| i <= k < n ==> #[trigger] items@[k] == s[k],
            dead == count_validity(items@.take(i as int), ValidityStatus::MissingTarget),
            notx == count_validity(items@.take(i as int), ValidityStatus::NotExecutable),
            unr == count_validity(items@.take(i as int), ValidityStatus::Unreachable),
            dead <= i && notx <= i && unr <= i,
        decreases n - i,
    {
        let c = checks.remove(0);
        assert(c == cs[i as int]);
        assert(checks@ =~= cs.skip(i + 1));
        let ghost before = items@;
        let mut it = items.remove(i);
        let ghost orig = it;
        let ValidityCheck { status, detail, quote_note } = c;
        if it.validity == ValidityStatus::Valid || it.validity == ValidityStatus::Unknown {
            it.validity = status;
        }
        if it.validity_detail.is_none() {
            it.validity_detail = detail;
        }
        if it.validity == ValidityStatus::Valid {
            if quote_note.is_some() {
                it.validity_detail = quote_note;
            }
        }
        match it.validity {
            ValidityStatus::MissingTarget => dead = dead + 1,
            ValidityStatus::NotExecutable => notx = notx + 1,
            ValidityStatus::Unreachable => unr = unr + 1,
            _ => {},
        }
        items.insert(i, it);
        proof {
            assert(items@.take(i + 1).drop_last() =~= before.take(i as int));
            assert(items@.take(i + 1).last() == it);
        }
        i = i + 1;
    }
    assert(items@.take(n as int) =~= items@);
    (dead, notx, unr)
}

/// Step four: duplicates of one program marked.
pub open spec fn dedup_step(a: Seq<StartupItem>, b: Seq<StartupItem>) -> bool {
    &&& a.len() == b.len()
    &&& forall|i: int| 0 <= i < a.len() ==> dedup_result(a, i, #[trigger] b[i])
}

/// Step five: the boot's cost attributed.
pub open spec fn cost_step(a: Seq<StartupItem>, b: Seq<StartupItem>, timeline: BootTimeline, snap: Snapshot) -> bool {
    &&& a.len() == b.len()
    &&& forall|i: int| 0 <= i < a.len() ==> {
        &&& same_but_cost(a[i], #[trigger] b[i])
        &&& timing_view(b[i].timing) == attributed_timing(a[i], keys_spec(a), timeline, snap)
        &&& diag_views(b[i].diagnostics@) == attributed_diags(a[i], timeline)
    }
}

/// Step six: the impact Windows measured attributed.
pub open spec fn impact_step(a: Seq<StartupItem>, b: Seq<StartupItem>, report: StartupInfoReport) -> bool {
    &&& a.len() == b.len()
    &&& forall|i: int| 0 <= i < a.len() ==> impact_done(a[i], #[trigger] b[i], keys_spec(a), report.records@)
}

/// Step seven: every item's risk, from the assessment; a system hook is
/// protected whatever the assessment said.
pub open spec fn risk_step(a: Seq<StartupItem>, levels: Seq<RiskLevel>, b: Seq<StartupItem>) -> bool {
    &&& a.len() == b.len() && levels.len() == a.len()
    &&& forall|i: int| 0 <= i < a.len() ==> {
        &&& #[trigger] b[i] == (StartupItem { risk: b[i].risk, risk_reasons: b[i].risk_reasons, ..a[i] })
        &&& assessed(a[i], levels[i], strings_view(b[i].risk_reasons@))
        &&& b[i].risk == (if a[i].source is SystemHook { RiskLevel::Locked } else { levels[i] })
    }
}

pub open spec fn count_level(ls: Seq<RiskLevel>, l: RiskLevel) -> nat
    decreases ls.len(),
{
    if ls.len() == 0 {
        0
    } else {
        count_level(ls.drop_last(), l) + (if ls.last() == l { 1nat } else { 0nat })
    }
}

pub fn assess_all(items: &mut Vec<StartupItem>) -> (levels: Vec<RiskLevel>)
    ensures
        risk_step(old(items)@, levels@, final(items)@),
{
    let ghost s = items@;
    let n = items.len();
    let mut levels: Vec<RiskLevel> = Vec::new();
    let mut i: usize = 0;
    while i < n
        invariant
            n == items.len(),
            n == s.len(),
            i <= n,
            levels@.len() == i,
            forall|k: int| 0 <= k < i ==> {
                &&& #[trigger] items@[k] == (StartupItem { risk: items@[k].risk, risk_reasons: items@[k].risk_reasons, ..s[k] })
                &&& assessed(s[k], levels@[k], strings_view(items@[k].risk_reasons@))
                &&& items@[k].risk == (if s[k].source is SystemHook { RiskLevel::Locked } else { levels@[k] })
            },
            forall|k: int| i <= k < n ==> #[trigger] items@[k] == s[k],
        decreases n - i,
    {
        let mut it = items.remove(i);
        let (level, reasons) = assess(&it);
        it.risk = mark_locked(it.source, level);
        it.risk_reasons = reasons;
        items.insert(i, it);
        levels.push(level);
        i = i + 1;
    }
    levels
}

/// Step eight: advice, from everything before it.
pub open spec fn advice_step(a: Seq<StartupItem>, b: Seq<StartupItem>) -> bool {
    &&& a.len() == b.len()
    &&& forall|i: int| 0 <= i < a.len() ==> {
        &&& #[trigger] b[i] == (StartupItem { recommendation: b[i].recommendation, ..a[i] })
        &&& match b[i].recommendation {
            Some(x) => advice_spec(a[i]) == Some(recommendation_view(x)),
            None => advice_spec(a[i]) is None,
        }
    }
}

pub open spec fn count_advised(s: Seq<StartupItem>) -> nat
    decreases s.len(),
{
    if s.len() == 0 {
        0
    } else {
        count_advised(s.drop_last()) + (if s.last().recommendation is Some { 1nat } else { 0nat })
    }
}

pub fn advise_all(items: &mut Vec<StartupItem>) -> (count: usize)
    ensures
        advice_step(old(items)@, final(items)@),
        count == count_advised(final(items)@),
{
    let ghost s = items@;
    let n = items.len();
    let mut count: usize = 0;
    let mut i: usize = 0;
    while i < n
        invariant
            n == items.len(),
            n == s.len(),
            i <= n,
            forall|k: int| 0 <= k < i ==> {
                &&& #[trigger] items@[k] == (StartupItem { recommendation: items@[k].recommendation, ..s[k] })
                &&& match items@[k].recommendation {
                    Some(x) => advice_spec(s[k]) == Some(recommendation_view(x)),
                    None => advice_spec(s[k]) is None,
                }
            },
            forall|k: int| i <= k < n ==> #[trigger] items@[k] == s[k],
            count == count_advised(items@.take(i as int)),
            count <= i,
        decreases n - i,
    {
        let ghost before = items@;
        let mut it = items.remove(i);
        it.recommendation = advise(&it);
        let some = it.recommendation.is_some();
        items.insert(i, it);
        proof {
            assert(items@.take(i + 1).drop_last() =~= before.take(i as int));
            assert(items@.take(i + 1).last() == it);
        }
        if some {
            count = count + 1;
        }
        i = i + 1;
    }
    assert(items@.take(n as int) =~= items@);
    count
}

pub open spec fn count_confidence(s: Seq<StartupItem>, c: Confidence) -> nat
    decreases s.len(),
{
    if s.len() == 0 {
        0
    } else {
        count_confidence(s.drop_last(), c) + (if s.last().timing.confidence == c { 1nat } else { 0nat })
    }
}

pub open spec fn count_impacted(s: Seq<StartupItem>) -> nat
    decreases s.len(),
{
    if s.len() == 0 {
        0
    } else {
        count_impacted(s.drop_last()) + (if s.last().timing.impact is Some { 1nat } else { 0nat })
    }
}

fn timing_counts(items: &Vec<StartupItem>) -> (r: (usize, usize, usize))
    ensures
        r.0 == count_confidence(items@, Confidence::Measured),
        r.1 == count_confidence(items@, Confidence::Observed),
        r.2 == count_impacted(items@),
{
    let mut m: usize = 0;
    let mut o: usize = 0;
    let mut p: usize = 0;
    let mut i: usize = 0;
    while i < items.len()
        invariant
            i <= items.len(),
            m == count_confidence(items@.take(i as int), Confidence::Measured),
            o == count_confidence(items@.take(i as int), Confidence::Observed),
            p == count_impacted(items@.take(i as int)),
            m <= i && o <= i && p <= i,
        decreases items.len() - i,
    {
        assert(items@.take(i + 1).drop_last() =~= items@.take(i as int));
        assert(items@.take(i + 1).last() == items@[i as int]);
        match items[i].timing.confidence {
            Confidence::Measured => m = m + 1,
            Confidence::Observed => o = o + 1,
            _ => {},
        }
        if items[i].timing.impact.is_some() {
            p = p + 1;
        }
        i = i + 1;
    }
    assert(items@.take(items.len() as int) =~= items@);
    (m, o, p)
}

fn level_count(levels: &Vec<RiskLevel>, l: RiskLevel) -> (r: usize)
    ensures
        r == count_level(levels@, l),
{
    let mut c: usize = 0;
    let mut i: usize = 0;
    while i < levels.len()
        invariant
            i <= levels.len(),
            c == count_level(levels@.take(i as int), l),
            c <= i,
        decreases levels.len() - i,
    {
        assert(levels@.take(i + 1).drop_last() =~= levels@.take(i as int));
        assert(levels@.take(i + 1).last() == levels@[i as int]);
        if levels[i] == l {
            c = c + 1;
        }
        i = i + 1;
    }
    assert(levels@.take(levels.len() as int) =~= levels@);
    c
}

// ───────────────────────── the whole pass ─────────────────────────

/// The items went from `s0` to `done` through the steps, by way of
/// `s1` ... `s7`, and the counts were taken along the way.
pub open spec fn passes(
    s0: Seq<StartupItem>,
    checks: Seq<ValidityCheck>,
    timeline: BootTimeline,
    snapshot: Snapshot,
    report: StartupInfoReport,
    s1: Seq<StartupItem>,
    s2: Seq<StartupItem>,
    s3: Seq<StartupItem>,
    s4: Seq<StartupItem>,
    s5: Seq<StartupItem>,
    s6: Seq<StartupItem>,
    levels: Seq<RiskLevel>,
    s7: Seq<StartupItem>,
    done: Seq<StartupItem>,
    stats: PipelineStats,
) -> bool {
    &&& ids_step(s0, s1)
    &&& kinds_step(s1, s2)
    &&& validity_step(s2, checks, s3)
    &&& dedup_step(s3, s4)
    &&& cost_step(s4, s5, timeline, snapshot)
    &&& impact_step(s5, s6, report)
    &&& risk_step(s6, levels, s7)
    &&& advice_step(s7, done)
    &&& stats.total == s0.len()
    &&& stats.dead == count_validity(s3, ValidityStatus::MissingTarget)
    &&& stats.not_executable == count_validity(s3, ValidityStatus::NotExecutable)
    &&& stats.unreachable == count_validity(s3, ValidityStatus::Unreachable)
    &&& stats.duplicates == marked_count(s3, s3.len() as int)
    &&& stats.locked == count_level(levels, RiskLevel::Locked)
    &&& stats.measured == count_confidence(s7, Confidence::Measured)
    &&& stats.observed == count_confidence(s7, Confidence::Observed)
    &&& stats.impacted == count_impacted(s7)
    &&& stats.advised == count_advised(done)
}

/// Every derived field of every item, in place, given the validity check
/// of each item's target (one per item, in order), the boot's time line,
/// the process sample and Windows' impact report. The items pass through
/// the steps in order: ids, kinds, validity, duplicates, cost, impact,
/// risk, advice; each step is stated by its own relation, and the counts
/// are taken where the steps take them.
pub fn finalize(
    items: &mut Vec<StartupItem>,
    checks: Vec<ValidityCheck>,
    timeline: &BootTimeline,
    snapshot: &Snapshot,
    startup_info: &StartupInfoReport,
    impact_overview: &mut ImpactOverview,
) -> (stats: PipelineStats)
    requires
        checks@.len() == old(items)@.len(),
        sum_cpu(startup_info.records@) <= u64::MAX,
        sum_disk(startup_info.records@) <= u64::MAX,
    ensures
        exists|s1: Seq<StartupItem>, s2: Seq<StartupItem>, s3: Seq<StartupItem>, s4: Seq<StartupItem>,
            s5: Seq<StartupItem>, s6: Seq<StartupItem>, levels: Seq<RiskLevel>, s7: Seq<StartupItem>|
            #[trigger] passes(old(items)@, checks@, *timeline, *snapshot, *startup_info, s1, s2, s3, s4, s5, s6, levels, s7,
                final(items)@, stats),
        final(impact_overview).record_count == startup_info.records@.len(),
{
    let ghost s0 = items@;
    let ghost cs = checks@;
    let total = items.len();
    assign_ids(items);
    let ghost s1 = items@;
    assign_kinds(items);
    let ghost s2 = items@;
    let (dead, not_executable, unreachable) = apply_validity(items, checks);
    let ghost s3 = items@;
    let duplicates = mark_duplicates(items);
    let ghost s4 = items@;
    attribute(items, timeline, snapshot);
    let ghost s5 = items@;
    attribute_impact(items, startup_info, impact_overview);
    let ghost s6 = items@;
    let levels = assess_all(items);
    let ghost s7 = items@;
    let locked = level_count(&levels, RiskLevel::Locked);
    let (measured, observed, impacted) = timing_counts(items);
    let advised = advise_all(items);
    let stats = PipelineStats { total, dead, not_executable, unreachable, duplicates, advised, locked, measured, observed, impacted };
    assert(passes(s0, cs, *timeline, *snapshot, *startup_info, s1, s2, s3, s4, s5, s6, levels@, s7, items@, stats));
    stats
}

/// An item's id is fixed by what was scanned: its source, its identity
/// (target and arguments) and where it was found, whatever the other
/// items, the checks, the time line or the reports were; no step after the
/// first changes it. So the same scan gives every item the same id on
/// every run, and every item has a (36-character) id.
pub proof fn lemma_id_is_fixed_by_the_scan(
    s0: Seq<StartupItem>,
    checks: Seq<ValidityCheck>,
    timeline: BootTimeline,
    snapshot: Snapshot,
    report: StartupInfoReport,
    s1: Seq<StartupItem>,
    s2: Seq<StartupItem>,
    s3: Seq<StartupItem>,
    s4: Seq<StartupItem>,
    s5: Seq<StartupItem>,
    s6: Seq<StartupItem>,
    levels: Seq<RiskLevel>,
    s7: Seq<StartupItem>,
    done: Seq<StartupItem>,
    stats: PipelineStats,
    i: int,
)
    requires
        passes(s0, checks, timeline, snapshot, report, s1, s2, s3, s4, s5, s6, levels, s7, done, stats),
        0 <= i < s0.len(),
    ensures
        done[i].id@ == uuid_v5_text(BOOTFLOW_NS, id_seed(source_key_spec(s0[i].source)@,
            identity_key_spec(s0[i].resolved_path@, s0[i].args@), discriminator_spec(s0[i].location@, s0[i].name@))),
        done[i].identity_key@ == identity_key_spec(s0[i].resolved_path@, s0[i].args@),
        done[i].id@.len() == 36,
{
    assert(s1[i] == (StartupItem { id: s1[i].id, identity_key: s1[i].identity_key, ..s0[i] }));
    assert(s2[i] == (StartupItem { kind: derive_kind_spec(s1[i].source, s1[i].signer.is_os_component), ..s1[i] }));
    assert(s3[i].id == s2[i].id && s3[i].identity_key == s2[i].identity_key);
    assert(dedup_result(s3, i, s4[i]));
    assert(s4[i].id == s3[i].id && s4[i].identity_key == s3[i].identity_key);
    assert(same_but_cost(s4[i], s5[i]));
    assert(impact_done(s5[i], s6[i], keys_spec(s5), report.records@));
    assert(s7[i] == (StartupItem { risk: s7[i].risk, risk_reasons: s7[i].risk_reasons, ..s6[i] }));
    assert(done[i] == (StartupItem { recommendation: done[i].recommendation, ..s7[i] }));
}

} // verus!
