//! Change-triggered test orchestration for ephemeral virtual-machine clusters:
//! watched inputs are perceived and compared with their recorded history to
//! decide whether a cluster's tests must run again; hosts are brought up
//! through bounded retries; test phases are planned and their outcomes judged.
pub mod cause;
pub mod checksum;
pub mod config;
pub mod exec;
pub mod history;
pub mod hosts;
pub mod ipv4;
pub mod provision;
pub mod runner;
pub mod session;
pub mod text;
pub mod virt;
pub mod watch;
