//! A domain-activity monitor: it reads DNS traffic lines, extracts the queried
//! domain, matches it against watchlist profiles and rate-limits alerts.
pub mod text;
pub mod rate_limit;
pub mod paths;
pub mod config;
pub mod watchdog;
pub mod notify;
pub mod cli;
pub mod control;
