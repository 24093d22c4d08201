//! Rolling back to a snapshot: compare the snapshot with the current
//! values and list what has to be written back. Nothing is written here.
//!
//! Only what changed is restored; an item that is gone is not brought
//! back (only switches are restored, never deleted entries); and the
//! rollback takes a snapshot of its own, so that it can be undone too.

use vstd::prelude::*;
use crate::snapshot::model::{Snapshot, SnapshotReason, SnapshotRecord, SNAPSHOT_SCHEMA_VERSION};
use crate::snapshot::txn::{op_view, value_spec, value_str, RollbackOp};
use crate::text::{chars_eq, chars_of, opt_chars, owned, push_str};

verus! {

/// One step of a rollback: write the snapshot's value back to an item.
#[derive(Debug, Clone)]
pub struct RollbackStep {
    pub item_id: String,
    pub display_name: String,
    /// What to write, for the writer of the item's kind.
    pub op: RollbackOp,
    /// The current value.
    pub before: String,
    /// The snapshot's value.
    pub after: String,
}

/// A rollback plan: the steps, and what is skipped and why.
#[derive(Debug, Clone)]
pub struct RollbackPlan {
    /// The snapshot rolled back to.
    pub snapshot_id: String,
    pub steps: Vec<RollbackStep>,
    /// `<name>：<why>` for every record that gives no step.
    pub skipped: Vec<String>,
}

impl RollbackPlan {
    /// A plan without steps changes nothing.
    pub fn is_noop(&self) -> (r: bool)
        ensures
            r == (self.steps@.len() == 0),
    {
        self.steps.len() == 0
    }
}

/// How a snapshot record is restored: by the first field it records.
pub open spec fn op_spec(rec: SnapshotRecord) -> Option<(int, Seq<char>, u32, bool)> {
    match opt_chars(rec.approved_raw) {
        Some(h) => Some((0, h, 0, false)),
        None => match rec.task_enabled {
            Some(v) => Some((2, Seq::empty(), 0, v)),
            None => match rec.trigger_enabled {
                Some(v) => Some((3, Seq::empty(), 0, v)),
                None => match rec.service_start_type {
                    Some(v) => Some((1, Seq::empty(), v, false)),
                    None => None,
                },
            },
        },
    }
}

/// The restoring operation of a record, if it records a value.
pub fn op_for(rec: &SnapshotRecord) -> (r: Option<RollbackOp>)
    ensures
        match r {
            Some(op) => op_spec(*rec) == Some(op_view(op)),
            None => op_spec(*rec) is None,
        },
{
    if let Some(hex) = &rec.approved_raw {
        return Some(RollbackOp::ApprovedRaw { hex: owned(hex.as_str()) });
    }
    if let Some(v) = rec.task_enabled {
        return Some(RollbackOp::TaskEnabled { value: v });
    }
    if let Some(v) = rec.trigger_enabled {
        return Some(RollbackOp::TriggerEnabled { value: v });
    }
    if let Some(v) = rec.service_start_type {
        return Some(RollbackOp::ServiceStartType { value: v });
    }
    None
}

/// The current values by item id; `None` for an item that is gone.
pub type CurrentView = Seq<(Seq<char>, Option<Seq<char>>)>;

pub open spec fn current_view(v: Seq<(String, Option<String>)>) -> CurrentView {
    v.map_values(|p: (String, Option<String>)| (p.0@, opt_chars(p.1)))
}

/// The current value of an item: the first entry with its id; an item
/// without an entry counts as gone.
pub open spec fn current_of(cur: CurrentView, id: Seq<char>) -> Option<Seq<char>>
    decreases cur.len(),
{
    if cur.len() == 0 {
        None
    } else if cur[0].0 == id {
        cur[0].1
    } else {
        current_of(cur.drop_first(), id)
    }
}

/// A step as item id, name, operation, before and after.
pub type StepView = (Seq<char>, Seq<char>, (int, Seq<char>, u32, bool), Seq<char>, Seq<char>);

pub open spec fn step_view(s: RollbackStep) -> StepView {
    (s.item_id@, s.display_name@, op_view(s.op), s.before@, s.after@)
}

/// What one record gives: a step, or a note why it is skipped.
pub open spec fn record_outcome(rec: SnapshotRecord, cur: CurrentView) -> (Option<StepView>, Option<Seq<char>>) {
    match value_spec(rec) {
        None => (None, Some(rec.display_name@ + "：快照无记录值"@)),
        Some(target) => match current_of(cur, rec.id@) {
            None => (None, Some(rec.display_name@ + "：当前不存在，跳过"@)),
            Some(c) => if c == target {
                (None, Some(rec.display_name@ + "：未变化"@))
            } else {
                match op_spec(rec) {
                    Some(op) => (Some((rec.id@, rec.display_name@, op, c, target)), None),
                    None => (None, Some(rec.display_name@ + "：无可用恢复字段"@)),
                }
            },
        },
    }
}

pub open spec fn plan_steps(recs: Seq<SnapshotRecord>, cur: CurrentView) -> Seq<StepView>
    decreases recs.len(),
{
    if recs.len() == 0 {
        Seq::empty()
    } else {
        let rest = plan_steps(recs.drop_last(), cur);
        match record_outcome(recs.last(), cur).0 {
            Some(s) => rest.push(s),
            None => rest,
        }
    }
}

pub open spec fn plan_skipped(recs: Seq<SnapshotRecord>, cur: CurrentView) -> Seq<Seq<char>>
    decreases recs.len(),
{
    if recs.len() == 0 {
        Seq::empty()
    } else {
        let rest = plan_skipped(recs.drop_last(), cur);
        match record_outcome(recs.last(), cur).1 {
            Some(s) => rest.push(s),
            None => rest,
        }
    }
}

fn current_lookup(current: &Vec<(String, Option<String>)>, id: &str) -> (r: Option<String>)
    ensures
        opt_chars(r) == current_of(current_view(current@), id@),
{
    let target = chars_of(id);
    let ghost cv = current_view(current@);
    let mut i: usize = 0;
    assert(cv.skip(0) =~= cv);
    while i < current.len()
        invariant
            i <= current.len(),
            cv == current_view(current@),
            target@ == id@,
            current_of(cv, id@) == current_of(cv.skip(i as int), id@),
        decreases current.len() - i,
    {
        let ghost rest = cv.skip(i as int);
        assert(rest[0] == cv[i as int]);
        assert(rest.drop_first() =~= cv.skip(i + 1));
        if chars_eq(chars_of(current[i].0.as_str()).as_slice(), target.as_slice()) {
            return match &current[i].1 {
                Some(v) => Some(owned(v.as_str())),
                None => None,
            };
        }
        i = i + 1;
    }
    assert(cv.skip(i as int).len() == 0);
    None
}

fn note(name: &str, why: &str) -> (r: String)
    ensures
        r@ == name@ + why@,
{
    let mut s = owned(name);
    push_str(&mut s, why);
    s
}

/// The rollback to a snapshot, given the current value of each item (by
/// id; an item without a value, or without an entry, is gone). A record
/// gives a step only when its value differs from the current one; a
/// record without a value, an item that is gone, and an unchanged item are
/// listed as skipped with the reason.
///
/// The current values come as (id, value) pairs, looked up by the first
/// pair with the id, rather than in a `HashMap<String, _>`: vstd specifies
/// what `HashMap::get` returns only under `obeys_key_model::<K>()`, which it
/// establishes for integer keys and not for `String`, and nothing here can
/// establish it, so a map keyed by id would leave the lookup unstated. A
/// sequence of pairs lets the contract say exactly which value each record
/// is compared with.
pub fn plan_rollback(snapshot: &Snapshot, current: &Vec<(String, Option<String>)>) -> (r: RollbackPlan)
    ensures
        r.snapshot_id@ == snapshot.id@,
        r.steps@.map_values(|s: RollbackStep| step_view(s)) == plan_steps(snapshot.records@, current_view(current@)),
        r.skipped@.map_values(|s: String| s@) == plan_skipped(snapshot.records@, current_view(current@)),
{
    let ghost cv = current_view(current@);
    let recs = &snapshot.records;
    let mut steps: Vec<RollbackStep> = Vec::new();
    let mut skipped: Vec<String> = Vec::new();
    let mut i: usize = 0;
    while i < recs.len()
        invariant
            i <= recs.len(),
            cv == current_view(current@),
            steps@.map_values(|s: RollbackStep| step_view(s)) == plan_steps(recs@.take(i as int), cv),
            skipped@.map_values(|s: String| s@) == plan_skipped(recs@.take(i as int), cv),
        decreases recs.len() - i,
    {
        let rec = &recs[i];
        let ghost t = recs@.take(i + 1);
        assert(t.drop_last() =~= recs@.take(i as int));
        assert(t.last() == *rec);
        let ghost st0 = steps@.map_values(|s: RollbackStep| step_view(s));
        let ghost sk0 = skipped@.map_values(|s: String| s@);
        match value_str(rec) {
            None => {
                skipped.push(note(rec.display_name.as_str(), "：快照无记录值"));
            },
            Some(target) => {
                match current_lookup(current, rec.id.as_str()) {
                    None => {
                        skipped.push(note(rec.display_name.as_str(), "：当前不存在，跳过"));
                    },
                    Some(cur) => {
                        if chars_eq(chars_of(cur.as_str()).as_slice(), chars_of(target.as_str()).as_slice()) {
                            skipped.push(note(rec.display_name.as_str(), "：未变化"));
                        } else {
                            match op_for(rec) {
                                Some(op) => {
                                    steps.push(RollbackStep {
                                        item_id: owned(rec.id.as_str()),
                                        display_name: owned(rec.display_name.as_str()),
                                        op,
                                        before: cur,
                                        after: target,
                                    });
                                },
                                None => {
                                    skipped.push(note(rec.display_name.as_str(), "：无可用恢复字段"));
                                },
                            }
                        }
                    },
                }
            },
        }
        proof {
            let o = record_outcome(*rec, cv);
            match o.0 {
                Some(s) => assert(steps@.map_values(|s: RollbackStep| step_view(s)) =~= st0.push(s)),
                None => assert(steps@.map_values(|s: RollbackStep| step_view(s)) =~= st0),
            }
            match o.1 {
                Some(s) => assert(skipped@.map_values(|s: String| s@) =~= sk0.push(s)),
                None => assert(skipped@.map_values(|s: String| s@) =~= sk0),
            }
        }
        i = i + 1;
    }
    assert(recs@.take(recs.len() as int) =~= recs@);
    RollbackPlan { snapshot_id: owned(snapshot.id.as_str()), steps, skipped }
}

/// The snapshot a rollback takes of the state it leaves, at the time the
/// caller took (`now`, RFC 3339), so that the rollback can be undone in
/// turn; its id is derived from that time.
pub fn new_rollback_snapshot(records: Vec<SnapshotRecord>, description: &str, now: String) -> (r: Snapshot)
    ensures
        r.id@.len() == 36,
        r.schema_version == SNAPSHOT_SCHEMA_VERSION,
        r.id@ == crate::dedupe::uuid_v5_text(crate::snapshot::model::SNAPSHOT_NS, crate::snapshot::model::snapshot_seed(now@)),
        r.created_at == now,
        r.description@ == description@,
        r.reason == SnapshotReason::Rollback,
        r.records == records,
{
    let id = crate::snapshot::model::snapshot_id("BootFlow", now.as_str());
    Snapshot {
        schema_version: SNAPSHOT_SCHEMA_VERSION,
        id,
        created_at: now,
        description: owned(description),
        reason: SnapshotReason::Rollback,
        records,
    }
}

// ───────────────────────── laws ─────────────────────────

/// Every changed item gets a step that writes the snapshot's value back:
/// after the steps, each present item holds its snapshot value again.
pub proof fn lemma_rollback_restores_every_change(recs: Seq<SnapshotRecord>, cur: CurrentView, i: int)
    requires
        0 <= i < recs.len(),
        value_spec(recs[i]) is Some,
        current_of(cur, recs[i].id@) is Some,
        current_of(cur, recs[i].id@) != value_spec(recs[i]),
    ensures
        exists|k: int| 0 <= k < plan_steps(recs, cur).len() && (#[trigger] plan_steps(recs, cur)[k]).0 == recs[i].id@
            && Some(plan_steps(recs, cur)[k].4) == value_spec(recs[i]),
    decreases recs.len(),
{
    let n = recs.len();
    let rest = plan_steps(recs.drop_last(), cur);
    if i == n - 1 {
        assert(recs.last() == recs[i]);
        assert(op_spec(recs[i]) is Some);
        let s = record_outcome(recs.last(), cur).0.unwrap();
        assert(plan_steps(recs, cur) == rest.push(s));
        assert(plan_steps(recs, cur)[rest.len() as int] == s);
        assert(s.0 == recs[i].id@);
        assert(Some(s.4) == value_spec(recs[i]));
    } else {
        assert(recs.drop_last()[i] == recs[i]);
        lemma_rollback_restores_every_change(recs.drop_last(), cur, i);
        let k = choose|k: int| 0 <= k < rest.len() && (#[trigger] rest[k]).0 == recs[i].id@
            && Some(rest[k].4) == value_spec(recs[i]);
        match record_outcome(recs.last(), cur).0 {
            Some(s) => assert(plan_steps(recs, cur)[k] == rest[k]),
            None => assert(plan_steps(recs, cur)[k] == rest[k]),
        }
    }
}

/// Nothing changed, nothing to do: when every item holds its snapshot
/// value (or is gone), the rollback has no step.
pub proof fn lemma_unchanged_rolls_back_nothing(recs: Seq<SnapshotRecord>, cur: CurrentView)
    requires
        forall|i: int| 0 <= i < recs.len() ==> (#[trigger] current_of(cur, recs[i].id@)) is None
            || current_of(cur, recs[i].id@) == value_spec(recs[i]),
    ensures
        plan_steps(recs, cur).len() == 0,
    decreases recs.len(),
{
    if recs.len() > 0 {
        let t = recs.drop_last();
        assert forall|i: int| 0 <= i < t.len() implies (#[trigger] current_of(cur, t[i].id@)) is None
            || current_of(cur, t[i].id@) == value_spec(t[i]) by {
            assert(t[i] == recs[i]);
        }
        lemma_unchanged_rolls_back_nothing(t, cur);
        let last = recs[recs.len() - 1];
        assert(current_of(cur, last.id@) is None || current_of(cur, last.id@) == value_spec(last));
    }
}

/// An item's value after the steps are carried out in order: the value the
/// last step for it writes, or its current value when no step is for it.
pub open spec fn after_steps(cur: CurrentView, steps: Seq<StepView>, id: Seq<char>) -> Option<Seq<char>>
    decreases steps.len(),
{
    if steps.len() == 0 {
        current_of(cur, id)
    } else if steps.last().0 == id {
        Some(steps.last().4)
    } else {
        after_steps(cur, steps.drop_last(), id)
    }
}

proof fn lemma_after_untouched(recs: Seq<SnapshotRecord>, cur: CurrentView, id: Seq<char>)
    requires
        forall|j: int| 0 <= j < recs.len() ==> (#[trigger] recs[j]).id@ != id,
    ensures
        after_steps(cur, plan_steps(recs, cur), id) == current_of(cur, id),
    decreases recs.len(),
{
    if recs.len() > 0 {
        let t = recs.drop_last();
        assert forall|j: int| 0 <= j < t.len() implies (#[trigger] t[j]).id@ != id by {
            assert(t[j] == recs[j]);
        }
        lemma_after_untouched(t, cur, id);
        let rest = plan_steps(t, cur);
        assert(recs[recs.len() - 1].id@ != id);
        match record_outcome(recs.last(), cur).0 {
            Some(st) => assert(rest.push(st).drop_last() =~= rest),
            None => {},
        }
    }
}

/// After the rollback plan is carried out, every item of the snapshot that
/// still exists holds its snapshot value again (the difference against the
/// snapshot is empty), provided the snapshot lists each item once.
pub proof fn lemma_rollback_leaves_no_difference(recs: Seq<SnapshotRecord>, cur: CurrentView, i: int)
    requires
        forall|a: int, b: int| 0 <= a < b < recs.len() ==> (#[trigger] recs[a]).id@ != (#[trigger] recs[b]).id@,
        0 <= i < recs.len(),
        value_spec(recs[i]) is Some,
        current_of(cur, recs[i].id@) is Some,
    ensures
        after_steps(cur, plan_steps(recs, cur), recs[i].id@) == value_spec(recs[i]),
    decreases recs.len(),
{
    let n = recs.len();
    let t = recs.drop_last();
    let rest = plan_steps(t, cur);
    let id = recs[i].id@;
    if i == n - 1 {
        assert(recs.last() == recs[i]);
        assert forall|j: int| 0 <= j < t.len() implies (#[trigger] t[j]).id@ != id by {
            assert(t[j] == recs[j]);
        }
        lemma_after_untouched(t, cur, id);
        match record_outcome(recs.last(), cur).0 {
            Some(st) => {
                assert(plan_steps(recs, cur) == rest.push(st));
            },
            None => {
                assert(op_spec(recs[i]) is Some);
            },
        }
    } else {
        assert forall|a: int, b: int| 0 <= a < b < t.len() implies (#[trigger] t[a]).id@ != (#[trigger] t[b]).id@ by {
            assert(t[a] == recs[a] && t[b] == recs[b]);
        }
        assert(t[i] == recs[i]);
        lemma_rollback_leaves_no_difference(t, cur, i);
        assert(recs[n - 1].id@ != id);
        match record_outcome(recs.last(), cur).0 {
            Some(st) => assert(rest.push(st).drop_last() =~= rest),
            None => {},
        }
    }
}

} // verus!
