//! Sidecar agent core for a Suricata IDS instance: rule validation, stable
//! rule identifiers, rules-file edits, log rotation and retention planning,
//! control-socket command construction, and the event-watcher state machine.
//! File and network I/O stay outside this crate; every function here is a
//! total computation on plain values, verified against its contract.

pub mod bridge;
pub mod config;
pub mod events;
pub mod handlers;
pub mod models;
pub mod options;
pub mod rotate;
pub mod routes;
pub mod rule_id;
pub mod store;
pub mod text;
pub mod validate;
pub mod watcher;
