//! Diagnosis codes. A code is defined where the fact is found and names
//! one fact only.

use vstd::prelude::*;

verus! {

/// The event log measured a slow start of the item.
pub const SLOW_START: &'static str = "SLOW_START";

/// A service that should start automatically was set to manual or disabled.
pub const MANUAL_BUT_SHOULD_AUTO: &'static str = "MANUAL_BUT_SHOULD_AUTO";

/// A DLL loaded into every process (AppInit_DLLs and the like).
pub const GLOBAL_HOOK: &'static str = "GLOBAL_HOOK";

/// A hook entry whose switch is off.
pub const HOOK_NOT_ACTIVE: &'static str = "HOOK_NOT_ACTIVE";

/// An Image File Execution Options debugger redirect.
pub const IFEO_HIJACK: &'static str = "IFEO_HIJACK";

/// An Image File Execution Options priority setting.
pub const IFEO_PRIORITY: &'static str = "IFEO_PRIORITY";

/// Office's background tasks were disabled.
pub const OFFICE_TASKS_DISABLED: &'static str = "OFFICE_TASKS_DISABLED";

/// A scheduled task with more than one action.
pub const MULTI_ACTION_TASK: &'static str = "MULTI_ACTION_TASK";

/// A scheduled task disabled as a whole.
pub const TASK_DISABLED: &'static str = "TASK_DISABLED";

/// A scheduled task whose boot or logon trigger is disabled.
pub const TASK_TRIGGER_DISABLED: &'static str = "TASK_TRIGGER_DISABLED";

/// Windows measured a high startup impact for the item.
pub const HIGH_STARTUP_IMPACT: &'static str = "HIGH_STARTUP_IMPACT";

} // verus!
