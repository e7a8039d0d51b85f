use vstd::prelude::*;

use crate::app_config::AppConfig;
use crate::cli::CliRunner;
use crate::custom_sentry_client::CustomSentryClient;

verus! {

/// What the whole run shares, built once at start-up and passed to each
/// part: `F` is the type of a command, `L` the log sink (which holds a
/// `Logger`'s state behind its locks).
pub struct Global<F, L> {
    pub app_config: AppConfig,
    pub sentry: CustomSentryClient,
    pub logger: L,
    pub config_directory: String,
    /// Start of the run, in seconds since the Unix epoch.
    pub app_start_time: i64,
    pub cli: CliRunner<F>,
}

pub fn app_config<F, L>(global: &Global<F, L>) -> (r: &AppConfig)
    ensures
        *r == global.app_config,
{
    &global.app_config
}

pub fn sentry_client<F, L>(global: &Global<F, L>) -> (r: &CustomSentryClient)
    ensures
        *r == global.sentry,
{
    &global.sentry
}

pub fn logger<F, L>(global: &Global<F, L>) -> (r: &L)
    ensures
        *r == global.logger,
{
    &global.logger
}

pub fn app_start_time<F, L>(global: &Global<F, L>) -> (r: i64)
    ensures
        r == global.app_start_time,
{
    global.app_start_time
}

pub fn cli<F, L>(global: &Global<F, L>) -> (r: &CliRunner<F>)
    ensures
        *r == global.cli,
{
    &global.cli
}

} // verus!
