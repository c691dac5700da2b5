//! Verified core of the Unicom traffic query service.
use vstd::prelude::*;

pub mod text;
pub mod config;
pub mod cron;
pub mod clock;
mod keyed;
pub mod session;
pub mod ratelimit;
pub mod flow;
pub mod datetime;
pub mod notify;
pub mod auth;
pub mod admin;
pub mod unicom;
pub mod accounts;
pub mod cli;
pub mod static_files;

verus! {

} // verus!
