use vstd::prelude::*;

pub mod config;
pub mod constants;
pub mod discord;
pub mod error;
pub mod errors;
pub mod fingerprint;
pub mod flow;
pub mod initialize_flow;
pub mod logger;
pub mod models;
pub mod monitor_flow;
pub mod prune_flow;
pub mod storage;
pub mod text;

verus! {
} // verus!
