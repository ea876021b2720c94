//! Local storage governance rules: classification of scanned files,
//! cleanup and migration suggestions, and the safety checks that keep
//! remote advice from overriding local rules.

pub mod text;
pub mod paths;
pub mod order;
pub mod sorting;
pub mod models;
pub mod sizes;
pub mod platform;
pub mod rules;
pub mod advisor;
pub mod suggestions;
pub mod analyzer;
pub mod remote;
pub mod planner;
pub mod diagnostics;
pub mod reporter;
pub mod process;
pub mod scan_view;
pub mod insight;
pub mod migration;
pub mod dedup;
pub mod scanner;
pub mod executor;
pub mod hashing;
pub mod migration_advice;
pub mod frontend;
pub mod scan_cache;
pub mod migration_run;
pub mod cleanup_plan;
pub mod config;
pub mod cli;
pub mod directory_payload;
pub mod registry;
