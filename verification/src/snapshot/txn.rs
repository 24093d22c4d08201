//! Transactions: one change is one transaction, undone as a whole when a
//! step fails.
//!
//! Before each write the value on disk is compared with the value the
//! transaction started from; if another program changed it meanwhile, the
//! transaction stops instead of overwriting that change.

use vstd::prelude::*;
use crate::error::AppError;
use crate::model::StartupItem;
use crate::snapshot::model::{Snapshot, SnapshotRecord, SnapshotTarget};
use crate::text::{decimal, opt_chars, owned, owned_opt, push_decimal, push_str};

verus! {

/// The result of one step.
#[derive(Debug, Clone, Copy, PartialEq, Eq, Structural)]
pub enum StepResult {
    /// Written.
    Applied,
    /// Nothing to do.
    Skipped,
}

/// Why a transaction stopped.
#[derive(Debug, Clone)]
pub enum AbortReason {
    /// The guard refused (protected or not locatable).
    Denied(String),
    /// The value changed since the transaction began.
    Conflict { item: String, expected: String, actual: String },
    /// The writer refused.
    Writer(String),
}

/// How to undo one step.
#[derive(Debug, Clone)]
pub enum RollbackOp {
    /// Write the `StartupApproved` bytes back.
    ApprovedRaw { hex: String },
    /// Set the service start type back.
    ServiceStartType { value: u32 },
    /// Set the task's own switch back.
    TaskEnabled { value: bool },
    /// Set the trigger switch back.
    TriggerEnabled { value: bool },
}

/// A step that was written, and how to undo it.
#[derive(Debug, Clone)]
pub struct AppliedStep {
    pub item_id: String,
    pub rollback: RollbackOp,
}

/// A running transaction.
#[derive(Debug)]
pub struct Tx {
    /// What the transaction does, in plain words.
    pub description: String,
    /// The items it covers.
    pub item_ids: Vec<String>,
    /// The records it started from.
    pub before: Vec<SnapshotRecord>,
    /// The steps written so far, in order.
    pub applied: Vec<AppliedStep>,
    /// Whether it was committed or rolled back.
    pub finished: bool,
    /// The ids of the records it started from.
    pub baseline_ids: Vec<String>,
}

/// A record as id, name, source, location, value name, approved bytes,
/// task switch, trigger switch, start type, scope and risk.
pub type RecordView = (
    Seq<char>,
    Seq<char>,
    Seq<char>,
    Seq<char>,
    Option<Seq<char>>,
    Option<Seq<char>>,
    Option<bool>,
    Option<bool>,
    Option<u32>,
    Seq<char>,
    Seq<char>,
);

pub open spec fn record_view(r: SnapshotRecord) -> RecordView {
    (
        r.id@,
        r.display_name@,
        r.target.source@,
        r.target.location@,
        opt_chars(r.target.value_name),
        opt_chars(r.approved_raw),
        r.task_enabled,
        r.trigger_enabled,
        r.service_start_type,
        r.scope@,
        r.risk@,
    )
}

pub open spec fn record_views(v: Seq<SnapshotRecord>) -> Seq<RecordView> {
    v.map_values(|r: SnapshotRecord| record_view(r))
}

/// A copy of a record, field by field.
pub fn copy_record(r: &SnapshotRecord) -> (c: SnapshotRecord)
    ensures
        record_view(c) == record_view(*r),
{
    SnapshotRecord {
        id: owned(r.id.as_str()),
        display_name: owned(r.display_name.as_str()),
        target: SnapshotTarget {
            source: owned(r.target.source.as_str()),
            location: owned(r.target.location.as_str()),
            value_name: owned_opt(&r.target.value_name),
        },
        approved_raw: owned_opt(&r.approved_raw),
        task_enabled: r.task_enabled,
        trigger_enabled: r.trigger_enabled,
        service_start_type: r.service_start_type,
        scope: owned(r.scope.as_str()),
        risk: owned(r.risk.as_str()),
    }
}

/// The ids of some records, in order.
pub open spec fn ids_of(v: Seq<SnapshotRecord>) -> Seq<Seq<char>> {
    v.map_values(|r: SnapshotRecord| r.id@)
}

pub open spec fn step_id_views(v: Seq<String>) -> Seq<Seq<char>> {
    v.map_values(|s: String| s@)
}

pub open spec fn op_view(op: RollbackOp) -> (int, Seq<char>, u32, bool) {
    match op {
        RollbackOp::ApprovedRaw { hex } => (0, hex@, 0, false),
        RollbackOp::ServiceStartType { value } => (1, Seq::empty(), value, false),
        RollbackOp::TaskEnabled { value } => (2, Seq::empty(), 0, value),
        RollbackOp::TriggerEnabled { value } => (3, Seq::empty(), 0, value),
    }
}

pub fn copy_op(op: &RollbackOp) -> (c: RollbackOp)
    ensures
        op_view(c) == op_view(*op),
{
    match op {
        RollbackOp::ApprovedRaw { hex } => RollbackOp::ApprovedRaw { hex: owned(hex.as_str()) },
        RollbackOp::ServiceStartType { value } => RollbackOp::ServiceStartType { value: *value },
        RollbackOp::TaskEnabled { value } => RollbackOp::TaskEnabled { value: *value },
        RollbackOp::TriggerEnabled { value } => RollbackOp::TriggerEnabled { value: *value },
    }
}

/// The conflict message: the item changed since the transaction began.
pub open spec fn changed_message(name: Seq<char>, actual: Seq<char>, expected: Seq<char>) -> Seq<char> {
    "「"@ + name + "」在你打开软件后被别的程序改过（现在 "@ + actual + "，事务开始时 "@ + expected
        + "）。已中止，请重新扫描后再操作。"@
}

/// The conflict message: the item is gone.
pub open spec fn gone_message(name: Seq<char>, expected: Seq<char>) -> Seq<char> {
    "「"@ + name + "」在你打开软件后消失了（事务开始时存在，值为 "@ + expected + "）。已中止"@
}

pub open spec fn opt_str(o: Option<&str>) -> Option<Seq<char>> {
    match o {
        Some(s) => Some(s@),
        None => None,
    }
}

/// The error an unchanged-check gives, if any.
pub open spec fn unchanged_spec(name: Seq<char>, current: Option<Seq<char>>, expected: Option<Seq<char>>) -> Option<Seq<char>> {
    match (current, expected) {
        (Some(c), Some(e)) => if c != e {
            Some(changed_message(name, c, e))
        } else {
            None
        },
        (None, Some(e)) => Some(gone_message(name, e)),
        _ => None,
    }
}

impl Tx {
    /// Starts a transaction from the records it may change.
    pub fn begin(description: &str, before_snapshot: &[SnapshotRecord]) -> (t: Tx)
        ensures
            t.description@ == description@,
            step_id_views(t.item_ids@) == ids_of(before_snapshot@),
            step_id_views(t.baseline_ids@) == ids_of(before_snapshot@),
            record_views(t.before@) == record_views(before_snapshot@),
            t.applied@.len() == 0,
            !t.is_finished(),
    {
        let mut ids: Vec<String> = Vec::new();
        let mut base: Vec<String> = Vec::new();
        let mut before: Vec<SnapshotRecord> = Vec::new();
        let mut i: usize = 0;
        while i < before_snapshot.len()
            invariant
                i <= before_snapshot.len(),
                step_id_views(ids@) == ids_of(before_snapshot@.take(i as int)),
                step_id_views(base@) == ids_of(before_snapshot@.take(i as int)),
                record_views(before@) == record_views(before_snapshot@.take(i as int)),
            decreases before_snapshot.len() - i,
        {
            let r = &before_snapshot[i];
            let ghost pi = step_id_views(ids@);
            let ghost pb = step_id_views(base@);
            let a = owned(r.id.as_str());
            let b = owned(r.id.as_str());
            let ghost pr = record_views(before@);
            ids.push(a);
            base.push(b);
            assert(step_id_views(ids@) =~= pi.push(r.id@));
            assert(step_id_views(base@) =~= pb.push(r.id@));
            let c = copy_record(r);
            before.push(c);
            assert(record_views(before@) =~= pr.push(record_view(*r)));
            proof {
                assert(before_snapshot@.take(i + 1) =~= before_snapshot@.take(i as int).push(before_snapshot@[i as int]));
                assert(step_id_views(ids@) =~= ids_of(before_snapshot@.take(i + 1)));
                assert(step_id_views(base@) =~= ids_of(before_snapshot@.take(i + 1)));
                assert(record_views(before@) =~= record_views(before_snapshot@.take(i + 1)));
            }
            i = i + 1;
        }
        assert(before_snapshot@.take(before_snapshot.len() as int) =~= before_snapshot@);
        Tx {
            description: owned(description),
            item_ids: ids,
            before,
            applied: Vec::new(),
            finished: false,
            baseline_ids: base,
        }
    }

    pub open spec fn is_finished(&self) -> bool {
        self.finished
    }

    /// The check before a write: a value that differs from the one the
    /// transaction started from, or an item that is gone, stops the
    /// transaction with a message that says so; otherwise the write may go on.
    pub fn expect_unchanged(&self, item: &StartupItem, current: Option<&str>, expected: Option<&str>) -> (r: Result<(), AppError>)
        ensures
            match unchanged_spec(item.name@, opt_str(current), opt_str(expected)) {
                Some(m) => r matches Err(AppError::Other(s)) && s@ == m,
                None => r is Ok,
            },
    {
        match (current, expected) {
            (Some(c), Some(e)) => {
                if crate::text::chars_eq(crate::text::chars_of(c).as_slice(), crate::text::chars_of(e).as_slice()) {
                    Ok(())
                } else {
                    let mut m = String::new();
                    push_str(&mut m, "「");
                    push_str(&mut m, item.name.as_str());
                    push_str(&mut m, "」在你打开软件后被别的程序改过（现在 ");
                    push_str(&mut m, c);
                    push_str(&mut m, "，事务开始时 ");
                    push_str(&mut m, e);
                    push_str(&mut m, "）。已中止，请重新扫描后再操作。");
                    Err(AppError::Other(m))
                }
            },
            (None, Some(e)) => {
                let mut m = String::new();
                push_str(&mut m, "「");
                push_str(&mut m, item.name.as_str());
                push_str(&mut m, "」在你打开软件后消失了（事务开始时存在，值为 ");
                push_str(&mut m, e);
                push_str(&mut m, "）。已中止");
                Err(AppError::Other(m))
            },
            _ => Ok(()),
        }
    }

    /// Notes a step that was written, to be undone on rollback.
    pub fn record_applied(&mut self, step: AppliedStep)
        ensures
            final(self).applied@ == old(self).applied@.push(step),
            final(self).description == old(self).description,
            final(self).item_ids == old(self).item_ids,
            final(self).before == old(self).before,
            final(self).baseline_ids == old(self).baseline_ids,
            final(self).is_finished() == old(self).is_finished(),
    {
        self.applied.push(step);
    }

    /// Ends the transaction normally.
    pub fn commit(self) -> (r: Tx)
        ensures
            r.is_finished(),
            r.applied == self.applied,
            r.description == self.description,
            r.item_ids == self.item_ids,
            r.before == self.before,
            r.baseline_ids == self.baseline_ids,
    {
        let mut t = self;
        t.finished = true;
        t
    }

    /// The undo operations of the written steps, newest first (an undo runs
    /// backwards), for the caller to carry out.
    pub fn pending_rollback(&self) -> (ops: Vec<RollbackOp>)
        ensures
            ops@.len() == self.applied@.len(),
            forall|i: int| 0 <= i < ops@.len() ==> op_view(#[trigger] ops@[i])
                == op_view(self.applied@[self.applied@.len() - 1 - i].rollback),
    {
        let n = self.applied.len();
        let mut ops: Vec<RollbackOp> = Vec::new();
        let mut i: usize = 0;
        while i < n
            invariant
                n == self.applied@.len(),
                i <= n,
                ops@.len() == i,
                forall|k: int| 0 <= k < i ==> op_view(#[trigger] ops@[k]) == op_view(self.applied@[n - 1 - k].rollback),
            decreases n - i,
        {
            ops.push(copy_op(&self.applied[n - 1 - i].rollback));
            i = i + 1;
        }
        ops
    }

    /// Ends the transaction by undoing it, given how each undo operation
    /// (in the order of `pending_rollback`, newest step first) went: one
    /// message per failure, `恢复 <item> 失败：<error>`, in that order. Every
    /// step is undone, none is skipped because another failed.
    pub fn rollback(&mut self, outcomes: &Vec<Result<(), String>>) -> (errors: Vec<String>)
        requires
            outcomes@.len() == old(self).applied@.len(),
        ensures
            final(self).is_finished(),
            final(self).applied == old(self).applied,
            final(self).description == old(self).description,
            final(self).item_ids == old(self).item_ids,
            final(self).before == old(self).before,
            final(self).baseline_ids == old(self).baseline_ids,
            step_id_views(errors@) == rollback_errors(old(self).applied@.reverse(), outcomes@),
    {
        self.finished = true;
        let n = self.applied.len();
        let ghost rev = self.applied@.reverse();
        let mut errors: Vec<String> = Vec::new();
        let mut i: usize = 0;
        while i < n
            invariant
                n == self.applied@.len(),
                rev == self.applied@.reverse(),
                rev.len() == n,
                i <= n,
                outcomes@.len() == n,
                step_id_views(errors@) == rollback_errors(rev.take(i as int), outcomes@.take(i as int)),
            decreases n - i,
        {
            let ghost a = rev.take(i + 1);
            let ghost o = outcomes@.take(i + 1);
            assert(a.drop_last() =~= rev.take(i as int));
            assert(o.drop_last() =~= outcomes@.take(i as int));
            assert(a.last() == self.applied@[n - 1 - i]);
            match &outcomes[i] {
                Err(e) => {
                    let mut m = String::new();
                    push_str(&mut m, "恢复 ");
                    push_str(&mut m, self.applied[n - 1 - i].item_id.as_str());
                    push_str(&mut m, " 失败：");
                    push_str(&mut m, e.as_str());
                    let ghost before = step_id_views(errors@);
                    errors.push(m);
                    assert(step_id_views(errors@) =~= before.push(m@));
                },
                Ok(()) => {},
            }
            i = i + 1;
        }
        assert(rev.take(n as int) =~= rev);
        assert(outcomes@.take(outcomes@.len() as int) =~= outcomes@);
        errors
    }
}

/// The failure messages of a rollback, in the order the steps were undone.
pub open spec fn rollback_errors(steps: Seq<AppliedStep>, outcomes: Seq<Result<(), String>>) -> Seq<Seq<char>>
    decreases steps.len(),
{
    if steps.len() == 0 || outcomes.len() == 0 {
        Seq::empty()
    } else {
        let rest = rollback_errors(steps.drop_last(), outcomes.drop_last());
        match outcomes.last() {
            Err(e) => rest.push("恢复 "@ + steps.last().item_id@ + " 失败："@ + e@),
            Ok(_) => rest,
        }
    }
}

/// How many of the first `n` outcomes are failures.
pub open spec fn err_count(outcomes: Seq<Result<(), String>>, n: int) -> nat
    decreases n,
{
    if n <= 0 {
        0
    } else {
        err_count(outcomes, n - 1) + if outcomes[n - 1] is Err { 1nat } else { 0nat }
    }
}

/// The message of one failed undo.
pub open spec fn undo_failure(step: AppliedStep, e: String) -> Seq<char> {
    "恢复 "@ + step.item_id@ + " 失败："@ + e@
}

proof fn lemma_errors_in_order(a: Seq<AppliedStep>, o: Seq<Result<(), String>>)
    requires
        a.len() == o.len(),
    ensures
        rollback_errors(a, o).len() == err_count(o, o.len() as int),
        forall|i: int| 0 <= i < o.len() ==> (#[trigger] o[i] matches Err(e) ==>
            rollback_errors(a, o)[err_count(o, i) as int] == undo_failure(a[i], e)),
    decreases a.len(),
{
    if a.len() > 0 {
        let (a1, o1) = (a.drop_last(), o.drop_last());
        lemma_errors_in_order(a1, o1);
        assert forall|k: int| 0 <= k <= o1.len() implies err_count(o1, k) == err_count(o, k) by {
            lemma_err_count_prefix(o1, o, k);
        }
        let n = o.len() - 1;
        assert forall|i: int| 0 <= i < o.len() implies (#[trigger] o[i] matches Err(e) ==>
            rollback_errors(a, o)[err_count(o, i) as int] == undo_failure(a[i], e)) by {
            if o[i] is Err {
                if i < n {
                    assert(o1[i] == o[i] && a1[i] == a[i]);
                    lemma_err_count_le(o1, i, n);
                }
            }
        }
    }
}

proof fn lemma_err_count_prefix(p: Seq<Result<(), String>>, o: Seq<Result<(), String>>, k: int)
    requires
        0 <= k <= p.len() <= o.len(),
        forall|j: int| 0 <= j < p.len() ==> p[j] == o[j],
    ensures
        err_count(p, k) == err_count(o, k),
    decreases k,
{
    if k > 0 {
        lemma_err_count_prefix(p, o, k - 1);
    }
}

proof fn lemma_err_count_le(o: Seq<Result<(), String>>, i: int, n: int)
    requires
        0 <= i < n <= o.len(),
        o[i] is Err,
    ensures
        err_count(o, i) < err_count(o, n),
    decreases n,
{
    if n > i + 1 {
        lemma_err_count_le(o, i, n - 1);
    }
}

/// Undoing a transaction: the undo operations come newest first
/// (`pending_rollback`), every one is carried out whatever the others gave,
/// and `rollback` reports one message per failed undo, in the order they
/// were carried out: the `k`-th message is that of the `k`-th failure, and
/// the failure of the undo at position `i` (of step `n - 1 - i`) names that
/// step.
pub proof fn lemma_rollback_reports_every_failure_in_undo_order(steps: Seq<AppliedStep>, outcomes: Seq<Result<(), String>>)
    requires
        outcomes.len() == steps.len(),
    ensures
        rollback_errors(steps.reverse(), outcomes).len() == err_count(outcomes, outcomes.len() as int),
        forall|i: int| 0 <= i < outcomes.len() ==> (#[trigger] outcomes[i] matches Err(e) ==>
            rollback_errors(steps.reverse(), outcomes)[err_count(outcomes, i) as int]
                == undo_failure(steps[steps.len() - 1 - i], e)),
{
    let r = steps.reverse();
    lemma_errors_in_order(r, outcomes);
    assert forall|i: int| 0 <= i < outcomes.len() implies r[i] == steps[steps.len() - 1 - i] by {}
}

/// The record of an item in a snapshot, the first with that id.
pub fn record_for<'a>(snap: &'a Snapshot, id: &str) -> (r: Option<&'a SnapshotRecord>)
    ensures
        match r {
            Some(rec) => exists|k: int| 0 <= k < snap.records@.len() && snap.records@[k] == *rec
                && rec.id@ == id@ && forall|j: int| 0 <= j < k ==> (#[trigger] snap.records@[j]).id@ != id@,
            None => forall|j: int| 0 <= j < snap.records@.len() ==> (#[trigger] snap.records@[j]).id@ != id@,
        },
{
    let target = crate::text::chars_of(id);
    let mut i: usize = 0;
    while i < snap.records.len()
        invariant
            i <= snap.records.len(),
            target@ == id@,
            forall|j: int| 0 <= j < i ==> (#[trigger] snap.records@[j]).id@ != id@,
        decreases snap.records.len() - i,
    {
        if crate::text::chars_eq(crate::text::chars_of(snap.records[i].id.as_str()).as_slice(), target.as_slice()) {
            return Some(&snap.records[i]);
        }
        i = i + 1;
    }
    None
}

/// The value a record holds, as text: the first recorded field of
/// approved bytes, task switch, trigger switch, start type; `None` when
/// none is recorded.
pub open spec fn value_spec(rec: SnapshotRecord) -> Option<Seq<char>> {
    match opt_chars(rec.approved_raw) {
        Some(h) => Some(h),
        None => match rec.task_enabled {
            Some(t) => Some(if t { "true"@ } else { "false"@ }),
            None => match rec.trigger_enabled {
                Some(t) => Some(if t { "true"@ } else { "false"@ }),
                None => match rec.service_start_type {
                    Some(s) => Some(decimal(s as nat)),
                    None => None,
                },
            },
        },
    }
}

/// A record's value as text, to compare with the value on disk.
pub fn value_str(rec: &SnapshotRecord) -> (r: Option<String>)
    ensures
        opt_chars(r) == value_spec(*rec),
{
    if let Some(hex) = &rec.approved_raw {
        return Some(owned(hex.as_str()));
    }
    if let Some(t) = rec.task_enabled {
        return Some(owned(if t { "true" } else { "false" }));
    }
    if let Some(t) = rec.trigger_enabled {
        return Some(owned(if t { "true" } else { "false" }));
    }
    if let Some(s) = rec.service_start_type {
        let mut out = String::new();
        push_decimal(&mut out, s as u64);
        return Some(out);
    }
    None
}

} // verus!
