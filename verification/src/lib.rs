//! Core library of a multi-target port-forwarding supervisor.
//!
//! The library resolves forwarding targets from a cascading hierarchy of
//! configuration sources, merges them under deterministic precedence rules,
//! selects targets by tag expressions and name filters, and drives one
//! retry/backoff state machine per selected target. All I/O — reading
//! configuration files, talking to the orchestration API client, spawning
//! the forwarding subprocess — is left to the surrounding application,
//! which hands plain values in and out.

pub mod banner;
pub mod config;
pub mod kubectl;
pub mod strutil;
pub mod target_filter;
