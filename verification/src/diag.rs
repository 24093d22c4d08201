pub mod boot_log;
pub mod boot_marker;
pub mod boot_verdict;
pub mod codes;
pub mod item_cost;
pub mod known;
pub mod proc_snapshot;
pub mod risk;
pub mod startup_info;
pub mod timeline;
