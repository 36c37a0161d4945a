//! Verified core of an incremental build orchestrator for projects that pair a
//! compiled core with a web front end.

pub mod asset_hasher;
pub mod backlog_builder;
pub mod builds;
pub mod exec;
pub mod paths;
pub mod project;
pub mod project_info;
pub mod rust_builder;
pub mod script_runner;
pub mod serve;
pub mod text;
pub mod typescript_builder;
pub mod util;
pub mod watch;
