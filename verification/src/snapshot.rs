pub mod changelog;
pub mod export_script;
pub mod guard;
pub mod model;
pub mod plan;
pub mod rollback;
pub mod store;
pub mod txn;
