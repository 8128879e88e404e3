//! Generation of firewall application profiles, and the privilege checks
//! that decide how a profile gets applied.
pub mod config;
pub mod rootcheck;
pub mod text;
