//! The server's shared state: which alerts went out, and the feed tokens.

pub mod backfill;
pub mod feeds;
pub mod history;
pub mod logos;
pub mod policy;
pub mod rng;
pub mod team_art;
