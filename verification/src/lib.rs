//! Verified core of `bo`, a local-first knowledge workspace.
pub mod agent;
pub mod collect;
pub mod compile;
pub mod config;
pub mod envelope;
pub mod journal;
pub mod json;
pub mod list;
pub mod query;
pub mod raze;
pub mod search;
pub mod status;
pub mod seed;
pub mod show;
pub mod synthesize;
pub mod text;
pub mod tree;
pub mod youtube;
