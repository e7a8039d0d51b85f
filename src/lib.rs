//! Snapshot rotation for virtual machines: parsing of snapshot listings,
//! retention decisions, shell invocation results, log rotation bookkeeping
//! and failure-report dispatch, each stated and proved with Verus.

pub mod errors;
pub mod text;
pub mod snapshot;
pub mod retention;
pub mod bash_shell;
pub mod app_config;
pub mod snapshot_helper;
pub mod custom_sentry_client;
pub mod stacktrace;
pub mod logging;
pub mod error_handler;
pub mod email;
pub mod do_try;
pub mod cli;
pub mod commands;
pub mod global;
pub mod extensions;
