//! Marqueet's pure logic: display settings, text formats and admin helpers.

pub mod admin;
pub mod cli;
pub mod config;
pub mod frame_stats;
pub mod text;
pub mod hub;
pub mod keyed;
pub mod tv_output;
pub mod upscale;
