//! The dry run: what a requested edit of one item would change, computed
//! from the item and the request alone, before anything is written.
//!
//! What is shown here is exactly what the transaction writes: the same
//! field, the same old and new value. A request that would change nothing
//! plans nothing, and a start type that cannot be written is not planned.

use vstd::prelude::*;
use crate::model::{RiskLevel, StartupItem};
use crate::text::{decimal, opt_chars, push_decimal, push_str};

verus! {

/// One step of a plan.
#[derive(Debug, Clone)]
pub struct PlannedAction {
    pub item_id: String,
    /// The name the user knows the item by.
    pub display_name: String,
    /// The field changed: `enabled`, `startType`, `taskEnabled` or `triggerEnabled`.
    pub field: String,
    /// The value before, as text.
    pub before: String,
    /// The value after, as text.
    pub after: String,
    /// What the change means, in one sentence.
    pub consequence: String,
    /// The item's risk level.
    pub risk: RiskLevel,
}

/// The fields a request changes; `None` leaves a field as it is.
#[derive(Debug, Clone, Copy, PartialEq, Eq, Structural)]
pub struct EditRequest {
    pub enabled: Option<bool>,
    /// A service's start type: 2 automatic, 3 on demand.
    pub start_type: Option<u32>,
    pub task_enabled: Option<bool>,
    pub trigger_enabled: Option<bool>,
}

impl Default for EditRequest {
    /// A request that changes nothing.
    fn default() -> (r: EditRequest)
        ensures
            r.enabled is None && r.start_type is None && r.task_enabled is None && r.trigger_enabled is None,
    {
        EditRequest { enabled: None, start_type: None, task_enabled: None, trigger_enabled: None }
    }
}

/// A planned step as item id, name, field, before, after, consequence and risk.
pub type ActionView = (Seq<char>, Seq<char>, Seq<char>, Seq<char>, Seq<char>, Seq<char>, RiskLevel);

pub open spec fn action_view(a: PlannedAction) -> ActionView {
    (a.item_id@, a.display_name@, a.field@, a.before@, a.after@, a.consequence@, a.risk)
}

pub open spec fn action_views(v: Seq<PlannedAction>) -> Seq<ActionView> {
    v.map_values(|a: PlannedAction| action_view(a))
}

/// The name shown: the display name, else the raw name.
pub open spec fn shown_name(item: StartupItem) -> Seq<char> {
    match opt_chars(item.display_name) {
        Some(n) => n,
        None => item.name@,
    }
}

pub open spec fn bool_word(b: bool) -> Seq<char> {
    if b {
        "true"@
    } else {
        "false"@
    }
}

/// A service start type in plain words.
pub open spec fn start_type_word(t: Option<u32>) -> Seq<char> {
    match t {
        Some(2) => "自动"@,
        Some(3) => "手动"@,
        Some(4) => "禁用"@,
        Some(v) => "未知("@ + decimal(v as nat) + ")"@,
        None => "未知"@,
    }
}

/// The start type recorded for the item, read as a `u32`.
pub open spec fn current_start_type(item: StartupItem) -> Option<u32> {
    match item.raw.start_type {
        Some(v) => Some(v as u32),
        None => None,
    }
}

pub open spec fn step(item: StartupItem, field: Seq<char>, before: Seq<char>, after: Seq<char>, consequence: Seq<char>) -> ActionView {
    (item.id@, shown_name(item), field, before, after, consequence, item.risk)
}

pub open spec fn enabled_steps(item: StartupItem, edit: EditRequest) -> Seq<ActionView> {
    match edit.enabled {
        Some(d) => if item.enabled != d {
            seq![step(item, "enabled"@, bool_word(item.enabled), bool_word(d),
                if d { "改为「启用」，开机/登录时运行"@ } else { "改为「停用」，不再随开机启动（实体保留，可随时恢复）"@ })]
        } else {
            Seq::empty()
        },
        None => Seq::empty(),
    }
}

pub open spec fn start_type_steps(item: StartupItem, edit: EditRequest) -> Seq<ActionView> {
    match edit.start_type {
        Some(t) => if current_start_type(item) != Some(t) {
            seq![step(item, "startType"@, start_type_word(current_start_type(item)), start_type_word(Some(t)),
                if t == 2 { "服务改为「自动」启动"@ } else { "服务改为「手动」启动，由需要时再拉起"@ })]
        } else {
            Seq::empty()
        },
        None => Seq::empty(),
    }
}

pub open spec fn task_steps(item: StartupItem, edit: EditRequest) -> Seq<ActionView> {
    let current = match item.raw.task_enabled {
        Some(b) => b,
        None => true,
    };
    match edit.task_enabled {
        Some(d) => if current != d {
            seq![step(item, "taskEnabled"@, bool_word(current), bool_word(d),
                if d { "计划任务改为「启用」"@ } else { "计划任务改为「停用」（任务级）"@ })]
        } else {
            Seq::empty()
        },
        None => Seq::empty(),
    }
}

pub open spec fn trigger_steps(item: StartupItem, edit: EditRequest) -> Seq<ActionView> {
    let current = match item.raw.trigger_enabled {
        Some(b) => b,
        None => true,
    };
    match edit.trigger_enabled {
        Some(d) => if current != d {
            seq![step(item, "triggerEnabled"@, bool_word(current), bool_word(d),
                if d { "开机/登录触发器改为「启用」"@ } else { "开机/登录触发器改为「停用」（任务仍启用）"@ })]
        } else {
            Seq::empty()
        },
        None => Seq::empty(),
    }
}

/// The plan of one edit: the on/off step, the start type step, the task
/// step and the trigger step, each only where the value changes. A start
/// type other than automatic or on demand ends the plan before it (a
/// disabled service is never a step that could be shown).
pub open spec fn plan_spec(item: StartupItem, edit: EditRequest) -> Seq<ActionView> {
    match edit.start_type {
        Some(t) if t != 2 && t != 3 => enabled_steps(item, edit),
        _ => enabled_steps(item, edit) + start_type_steps(item, edit) + task_steps(item, edit)
            + trigger_steps(item, edit),
    }
}

fn text(s: &str) -> (r: String)
    ensures
        r@ == s@,
{
    let mut r = String::new();
    push_str(&mut r, s);
    r
}

fn display(item: &StartupItem) -> (r: String)
    ensures
        r@ == shown_name(*item),
{
    match &item.display_name {
        Some(n) => text(n.as_str()),
        None => text(item.name.as_str()),
    }
}

fn bool_text(b: bool) -> (r: String)
    ensures
        r@ == bool_word(b),
{
    if b {
        text("true")
    } else {
        text("false")
    }
}

/// A service start type in plain words.
pub fn start_type_name(t: Option<u32>) -> (r: String)
    ensures
        r@ == start_type_word(t),
{
    match t {
        Some(2) => text("自动"),
        Some(3) => text("手动"),
        Some(4) => text("禁用"),
        Some(v) => {
            let mut s = text("未知(");
            push_decimal(&mut s, v as u64);
            push_str(&mut s, ")");
            s
        },
        None => text("未知"),
    }
}

fn push_step(out: &mut Vec<PlannedAction>, item: &StartupItem, field: &str, before: String, after: String, consequence: &str)
    ensures
        action_views(final(out)@) == action_views(old(out)@).push(
            step(*item, field@, before@, after@, consequence@),
        ),
{
    let a = PlannedAction {
        item_id: text(item.id.as_str()),
        display_name: display(item),
        field: text(field),
        before,
        after,
        consequence: text(consequence),
        risk: item.risk,
    };
    let ghost old_views = action_views(out@);
    out.push(a);
    assert(action_views(out@) =~= old_views.push(step(*item, field@, before@, after@, consequence@)));
}

/// The steps that an edit of one item takes, for the user to see before
/// anything is written. Only values that change give a step; a start type
/// other than automatic (2) or on demand (3) is refused here, and nothing
/// after it is planned.
pub fn plan_one(item: &StartupItem, edit: &EditRequest) -> (r: Vec<PlannedAction>)
    ensures
        action_views(r@) == plan_spec(*item, *edit),
{
    let mut out: Vec<PlannedAction> = Vec::new();
    if let Some(desired) = edit.enabled {
        if item.enabled != desired {
            push_step(&mut out, item, "enabled", bool_text(item.enabled), bool_text(desired),
                if desired { "改为「启用」，开机/登录时运行" } else { "改为「停用」，不再随开机启动（实体保留，可随时恢复）" });
        }
    }
    assert(action_views(out@) =~= enabled_steps(*item, *edit));
    let ghost s1 = action_views(out@);
    if let Some(desired_type) = edit.start_type {
        if desired_type != 2 && desired_type != 3 {
            return out;
        }
        let current: Option<u32> = match item.raw.start_type {
            Some(v) => Some(v as u32),
            None => None,
        };
        if current != Some(desired_type) {
            push_step(&mut out, item, "startType", start_type_name(current), start_type_name(Some(desired_type)),
                if desired_type == 2 { "服务改为「自动」启动" } else { "服务改为「手动」启动，由需要时再拉起" });
        }
    }
    assert(action_views(out@) =~= s1 + start_type_steps(*item, *edit));
    let ghost s2 = action_views(out@);
    if let Some(desired) = edit.task_enabled {
        let current = match item.raw.task_enabled {
            Some(b) => b,
            None => true,
        };
        if current != desired {
            push_step(&mut out, item, "taskEnabled", bool_text(current), bool_text(desired),
                if desired { "计划任务改为「启用」" } else { "计划任务改为「停用」（任务级）" });
        }
    }
    assert(action_views(out@) =~= s2 + task_steps(*item, *edit));
    let ghost s3 = action_views(out@);
    if let Some(desired) = edit.trigger_enabled {
        let current = match item.raw.trigger_enabled {
            Some(b) => b,
            None => true,
        };
        if current != desired {
            push_step(&mut out, item, "triggerEnabled", bool_text(current), bool_text(desired),
                if desired { "开机/登录触发器改为「启用」" } else { "开机/登录触发器改为「停用」（任务仍启用）" });
        }
    }
    assert(action_views(out@) =~= s3 + trigger_steps(*item, *edit));
    out
}

/// An edit whose fields all equal the item's values plans nothing: the
/// dry run never shows a change that would not happen.
pub proof fn lemma_noop_edit_plans_nothing(item: StartupItem, edit: EditRequest)
    requires
        edit.enabled is None || edit.enabled == Some(item.enabled),
        edit.start_type is None || edit.start_type == current_start_type(item),
        edit.task_enabled is None || edit.task_enabled == Some(
            match item.raw.task_enabled { Some(b) => b, None => true },
        ),
        edit.trigger_enabled is None || edit.trigger_enabled == Some(
            match item.raw.trigger_enabled { Some(b) => b, None => true },
        ),
    ensures
        plan_spec(item, edit).len() == 0,
{
}

/// A plan has at most one step per field, in the order on/off, start
/// type, task, trigger.
pub proof fn lemma_plan_at_most_four(item: StartupItem, edit: EditRequest)
    ensures
        plan_spec(item, edit).len() <= 4,
{
}

} // verus!
