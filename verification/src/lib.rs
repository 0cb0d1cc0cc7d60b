//! The decision core of a resource-governance watchdog: the policy model,
//! the termination protocol, the enforcement engine and the rate limits on
//! notifications. Nothing here performs I/O: snapshots, the time and the
//! outcome of every signal are handed in, and what is to be done is handed
//! back.

pub mod config;
pub mod enforcer;
pub mod killer;
pub mod manual;
pub mod monitor;
pub mod notify;
pub mod profiles;
pub mod rounds;
pub mod stats;
pub mod text;
