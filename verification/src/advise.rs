//! Advice on what to do with an item.
//!
//! Advice is only advice: nothing here acts. Reasons are in plain words,
//! and uncertain advice is worded carefully. `None` means no opinion, which
//! is the answer for most items, so that the few that matter stand out.

use vstd::prelude::*;
use crate::diag::codes::{MANUAL_BUT_SHOULD_AUTO, SLOW_START};
use crate::diag::risk::{has_code, has_code_exec};
use crate::model::{
    BootPhase, Confidence, DiagnosticInfo, ItemKind, Recommendation, RecommendationAction,
    RiskLevel, Scope, StartupItem, ValidityStatus,
};
use crate::text::{opt_chars, push_str};

verus! {

pub const MISSING_TARGET_TEXT: &'static str = "这个程序已经不在电脑上了，它的启动记录是卸载时留下的残留。清理它不会影响任何正在使用的东西（它本来也启动不了）。";

pub const NOT_EXECUTABLE_TEXT: &'static str = "这个启动项目标指向的不是一个可运行的程序，系统实际上无法执行它。它可能来自一次失败的安装或错误的配置。";

pub const UNREACHABLE_TEXT: &'static str = "它指向的位置当前访问不到。如果你现在没连接那个网络位置，这属于正常现象，不用处理；如果这个位置已经不用了，可以考虑清理。";

pub const REMNANT_TEXT: &'static str = "这个程序已经有一个在用的启动入口，而这一条是重复的、而且已经被停用了。它现在不起任何作用，清理掉不会影响那个还在生效的入口。";

pub const DUPLICATE_TEXT: &'static str = "这个程序在系统里注册了不止一个启动入口，它们都会被拉起。保留一个就够——多出来的入口不会让它启动得更快，反而容易在你想关掉它的时候漏掉一个。";

pub const HOOK_TEXT: &'static str = "它不是一个独立运行的程序，而是会被装进其它程序里一起运行。因此它的影响范围远超它自己——出问题时影响面也更大。如果这个工具是你自己装的、且在用，可以保留。";

pub const UNSIGNED_TEXT: &'static str = "这个项没有数字签名，无法核验它由谁发布。它又位于所有用户共享的位置（或会在开机早期运行），因此影响面比普通启动项大。建议你确认一下是否认识它。";

pub const SLOW_HEAD: &'static str = "系统自己记录了它上一次开机启动很慢";

pub const SLOW_TAIL: &'static str = "。这是 Windows 的实测数据，不是我们的推测。可以考虑把它改成更晚启动，或者确认一下它是否真的需要开机就运行。";

pub const MANUAL_TEXT: &'static str = "它的启动方式被改成了「手动」，但按它的用途应该由系统自动拉起。这通常是系统优化工具留下的结果，会导致依赖它的程序第一次打开时卡住不动。";

/// An unsigned item is worth mentioning only where its reach is large: not
/// in the locked zone (nothing could be done about it), and either
/// machine-wide, early in boot, or rated high.
pub open spec fn needs_attention_spec(it: StartupItem) -> bool {
    if it.risk is Locked {
        false
    } else if it.scope is Machine {
        true
    } else {
        it.boot_phase is Kernel || it.boot_phase is Driver || it.boot_phase is Devices
            || it.boot_phase is Smss || it.risk is High
    }
}

/// The index of the first diagnostic with `code`.
pub open spec fn first_code(ds: Seq<DiagnosticInfo>, code: Seq<char>, from: int) -> Option<int>
    decreases ds.len() - from,
{
    if from < 0 || from >= ds.len() {
        None
    } else if ds[from].code@ == code {
        Some(from)
    } else {
        first_code(ds, code, from + 1)
    }
}

/// The reason given for a measured slow start, with its evidence.
pub open spec fn slow_text(evidence: Option<Seq<char>>) -> Seq<char> {
    SLOW_HEAD@ + match evidence {
        Some(e) => "（"@ + e + "）"@,
        None => Seq::empty(),
    } + SLOW_TAIL@
}

/// The advice for an item as action, reason and confidence.
pub open spec fn advice_spec(it: StartupItem) -> Option<(RecommendationAction, Seq<char>, Confidence)> {
    let ds = it.diagnostics@;
    if it.validity is MissingTarget {
        Some((RecommendationAction::Remove, MISSING_TARGET_TEXT@, Confidence::Measured))
    } else if it.validity is NotExecutable {
        Some((RecommendationAction::Remove, NOT_EXECUTABLE_TEXT@, Confidence::Measured))
    } else if it.validity is Unreachable {
        Some((RecommendationAction::Review, UNREACHABLE_TEXT@, Confidence::Estimated))
    } else if it.validity is DisabledRemnant {
        Some((RecommendationAction::Remove, REMNANT_TEXT@, Confidence::Measured))
    } else if it.validity is Duplicate {
        Some((RecommendationAction::Disable, DUPLICATE_TEXT@, Confidence::Measured))
    } else if !it.enabled {
        None
    } else if it.kind is Hook {
        Some((RecommendationAction::Review, HOOK_TEXT@, Confidence::Estimated))
    } else if !it.signer.is_signed && needs_attention_spec(it) {
        Some((RecommendationAction::Review, UNSIGNED_TEXT@, Confidence::Estimated))
    } else {
        match first_code(ds, SLOW_START@, 0) {
            Some(i) => Some(
                (RecommendationAction::Review, slow_text(opt_chars(ds[i].evidence)), Confidence::Measured),
            ),
            None => if has_code(ds, MANUAL_BUT_SHOULD_AUTO@) {
                Some((RecommendationAction::Review, MANUAL_TEXT@, Confidence::Measured))
            } else {
                None
            },
        }
    }
}

pub open spec fn recommendation_view(r: Recommendation) -> (RecommendationAction, Seq<char>, Confidence) {
    (r.action, r.reason@, r.confidence)
}

fn needs_attention_when_unsigned(item: &StartupItem) -> (r: bool)
    ensures
        r == needs_attention_spec(*item),
{
    if item.risk == RiskLevel::Locked {
        return false;
    }
    if item.scope == Scope::Machine {
        return true;
    }
    matches!(item.boot_phase, BootPhase::Kernel | BootPhase::Driver | BootPhase::Devices | BootPhase::Smss)
        || item.risk == RiskLevel::High
}

fn rec(action: RecommendationAction, text: &str, confidence: Confidence) -> (r: Recommendation)
    ensures
        recommendation_view(r) == (action, text@, confidence),
{
    let mut reason = String::new();
    push_str(&mut reason, text);
    assert(reason@ =~= text@);
    Recommendation { action, reason, confidence }
}

fn first_code_exec(ds: &Vec<DiagnosticInfo>, code: &str) -> (r: Option<usize>)
    ensures
        match r {
            Some(i) => first_code(ds@, code@, 0) == Some(i as int) && i < ds@.len(),
            None => first_code(ds@, code@, 0) is None,
        },
{
    let mut i: usize = 0;
    while i < ds.len()
        invariant
            i <= ds.len(),
            first_code(ds@, code@, 0) == first_code(ds@, code@, i as int),
        decreases ds.len() - i,
    {
        if ds[i].code == code.to_string() {
            return Some(i);
        }
        i = i + 1;
    }
    None
}

/// Advice for one item, or `None` when there is nothing worth saying.
///
/// In order: a missing or non-executable target (remove), an unreachable
/// one (review), a disabled duplicate (remove), an enabled duplicate
/// (disable, not delete). A disabled item gets nothing more, since the
/// rest is about how it runs: a hook (review), an unsigned item of large
/// reach (review), a measured slow start (review, with the evidence), a
/// service that should start automatically (review).
pub fn advise(item: &StartupItem) -> (r: Option<Recommendation>)
    ensures
        match r {
            Some(x) => advice_spec(*item) == Some(recommendation_view(x)),
            None => advice_spec(*item) is None,
        },
{
    if item.validity == ValidityStatus::MissingTarget {
        return Some(rec(RecommendationAction::Remove, MISSING_TARGET_TEXT, Confidence::Measured));
    }
    if item.validity == ValidityStatus::NotExecutable {
        return Some(rec(RecommendationAction::Remove, NOT_EXECUTABLE_TEXT, Confidence::Measured));
    }
    if item.validity == ValidityStatus::Unreachable {
        return Some(rec(RecommendationAction::Review, UNREACHABLE_TEXT, Confidence::Estimated));
    }
    if item.validity == ValidityStatus::DisabledRemnant {
        return Some(rec(RecommendationAction::Remove, REMNANT_TEXT, Confidence::Measured));
    }
    if item.validity == ValidityStatus::Duplicate {
        return Some(rec(RecommendationAction::Disable, DUPLICATE_TEXT, Confidence::Measured));
    }
    if !item.enabled {
        return None;
    }
    if item.kind == ItemKind::Hook {
        return Some(rec(RecommendationAction::Review, HOOK_TEXT, Confidence::Estimated));
    }
    if !item.signer.is_signed && needs_attention_when_unsigned(item) {
        return Some(rec(RecommendationAction::Review, UNSIGNED_TEXT, Confidence::Estimated));
    }
    match first_code_exec(&item.diagnostics, SLOW_START) {
        Some(i) => {
            let mut reason = String::new();
            push_str(&mut reason, SLOW_HEAD);
            let ghost head = reason@;
            match &item.diagnostics[i].evidence {
                Some(e) => {
                    push_str(&mut reason, "（");
                    push_str(&mut reason, e.as_str());
                    push_str(&mut reason, "）");
                },
                None => {},
            }
            push_str(&mut reason, SLOW_TAIL);
            assert(reason@ =~= slow_text(opt_chars(item.diagnostics@[i as int].evidence)));
            return Some(Recommendation { action: RecommendationAction::Review, reason, confidence: Confidence::Measured });
        },
        None => {},
    }
    if has_code_exec(&item.diagnostics, MANUAL_BUT_SHOULD_AUTO) {
        return Some(rec(RecommendationAction::Review, MANUAL_TEXT, Confidence::Measured));
    }
    None
}

/// Advice stays cautious where it is unsure: removal is advised only for an
/// entry whose target is gone, cannot run, or that is a switched-off
/// leftover, always with measured confidence; advice of estimated
/// confidence only ever asks for a review.
pub proof fn lemma_only_sure_advice_removes(it: StartupItem)
    ensures
        match advice_spec(it) {
            Some((a, _, c)) => {
                &&& a == RecommendationAction::Remove ==> c == Confidence::Measured
                &&& a == RecommendationAction::Remove ==> (it.validity is MissingTarget
                    || it.validity is NotExecutable || it.validity is DisabledRemnant)
                &&& c == Confidence::Estimated ==> a == RecommendationAction::Review
            },
            None => true,
        },
{
}

/// Every enabled hook that is not a broken, unreachable or duplicate entry
/// is put up for review, with the reason that it runs inside other
/// programs, whoever signed it: a signature says who published a hook,
/// not that loading it into every program is harmless.
pub proof fn lemma_every_enabled_hook_is_reviewed(it: StartupItem)
    requires
        !(it.validity is MissingTarget || it.validity is NotExecutable || it.validity is Unreachable
            || it.validity is DisabledRemnant || it.validity is Duplicate),
        it.enabled,
        it.kind is Hook,
    ensures
        advice_spec(it) == Some((RecommendationAction::Review, HOOK_TEXT@, Confidence::Estimated)),
        advice_spec(StartupItem { signer: crate::model::SignerInfo { is_signed: !it.signer.is_signed, ..it.signer }, ..it })
            == advice_spec(it),
{
}

} // verus!
