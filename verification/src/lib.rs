//! Core logic of a recurring uptime monitor: a per-endpoint state machine
//! with debounced up/down transitions and exactly-once-per-transition
//! notification decisions, plus the pure helpers around it (classifying a
//! probe response, validating a configuration, rendering notification text).
//!
//! All I/O (probing over HTTP, loading the configuration file, delivering
//! notifications) lives outside this crate; the functions here are pure and
//! fully specified.

pub mod classify;
pub mod config;
pub mod laws;
pub mod monitor;
pub mod render;
pub mod tracker;
