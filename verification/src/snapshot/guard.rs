//! The guard every write passes first. An item of the protected zone is
//! refused, and so is one that cannot be located; nothing is written here.
//! What counts as protected is decided by the risk assessment alone.

use vstd::prelude::*;
use crate::diag::risk::{locked_reason, locked_reason_spec};
use crate::model::{RiskLevel, SourceKind, StartupItem};
use crate::text::push_str;

verus! {

/// The answer of the guard.
#[derive(Debug, Clone)]
pub enum GuardResult {
    Allowed,
    /// Refused, with the reason in plain words.
    Denied(String),
}

impl GuardResult {
    pub fn is_allowed(&self) -> (r: bool)
        ensures
            r == (*self is Allowed),
    {
        match self {
            GuardResult::Allowed => true,
            GuardResult::Denied(_) => false,
        }
    }

    /// The reason of a refusal; `None` when allowed.
    pub fn message(&self) -> (r: Option<&str>)
        ensures
            match *self {
                GuardResult::Allowed => r is None,
                GuardResult::Denied(m) => r matches Some(s) && s@ == m@,
            },
    {
        match self {
            GuardResult::Allowed => None,
            GuardResult::Denied(m) => Some(m.as_str()),
        }
    }
}

pub const LOCKED_PREFIX: &'static str = "这是禁改区：";
pub const LOCKED_GENERIC: &'static str = "这是禁改区，不提供修改入口。";
pub const NO_LOCATION: &'static str = "这一项缺少定位信息，无法安全修改。请重新扫描后重试。";

/// The guard's answer as the reason of a refusal, `None` when allowed.
pub open spec fn check_spec(item: StartupItem) -> Option<Seq<char>> {
    if item.risk == RiskLevel::Locked {
        match locked_reason_spec(item) {
            Some(r) => Some(LOCKED_PREFIX@ + r),
            None => Some(LOCKED_GENERIC@),
        }
    } else if item.id@.len() == 0 || item.location@.len() == 0 {
        Some(NO_LOCATION@)
    } else {
        None
    }
}

pub open spec fn guard_view(g: GuardResult) -> Option<Seq<char>> {
    match g {
        GuardResult::Allowed => None,
        GuardResult::Denied(m) => Some(m@),
    }
}

/// Checks an item before any write: a protected item is refused with the
/// reason the risk assessment gives (or a general one if it gives none),
/// an item without id or location is refused, anything else is allowed.
pub fn check(item: &StartupItem) -> (r: GuardResult)
    ensures
        guard_view(r) == check_spec(*item),
{
    if item.risk == RiskLevel::Locked {
        let mut m = String::new();
        match locked_reason(item) {
            Some(why) => {
                push_str(&mut m, LOCKED_PREFIX);
                push_str(&mut m, why.as_str());
            },
            None => push_str(&mut m, LOCKED_GENERIC),
        }
        return GuardResult::Denied(m);
    }
    if crate::text::chars_of(item.id.as_str()).len() == 0 || crate::text::chars_of(item.location.as_str()).len() == 0 {
        let mut m = String::new();
        push_str(&mut m, NO_LOCATION);
        return GuardResult::Denied(m);
    }
    GuardResult::Allowed
}

/// System hooks are protected whatever the assessment said: they never
/// reach a write.
pub fn mark_locked(source: SourceKind, assessed: RiskLevel) -> (r: RiskLevel)
    ensures
        r == (if source is SystemHook { RiskLevel::Locked } else { assessed }),
{
    match source {
        SourceKind::SystemHook => RiskLevel::Locked,
        _ => assessed,
    }
}

/// The text to show for a refusal; empty when allowed.
pub fn denial_message(result: &GuardResult) -> (r: String)
    ensures
        r@ == match guard_view(*result) {
            Some(m) => m,
            None => Seq::empty(),
        },
{
    let mut s = String::new();
    match result {
        GuardResult::Allowed => {},
        GuardResult::Denied(m) => push_str(&mut s, m.as_str()),
    }
    s
}

/// A protected item is refused, whatever its source.
pub proof fn lemma_locked_is_denied(item: StartupItem)
    requires
        item.risk == RiskLevel::Locked,
    ensures
        check_spec(item) is Some,
{
}

} // verus!
