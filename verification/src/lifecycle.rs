//! The order in which the service comes up and goes down.

use crate::config::Config;
use vstd::prelude::*;

verus! {

/// One step of bringing the service up.
#[derive(Debug, Clone, Copy, PartialEq, Eq, Structural)]
pub enum StartupStep {
    OpenPools,
    RunMigrations,
    StartWriters,
    BuildSuggestIndex,
    BuildVerifier,
    StartSweeper,
    BindListener,
}

/// One step of taking the service down.
#[derive(Debug, Clone, Copy, PartialEq, Eq, Structural)]
pub enum ShutdownStep {
    StopAccepting,
    CloseWriters,
    AwaitDrain,
    ClosePools,
}

/// The steps that bring the service up, in order. The index is built only
/// where suggestions are enabled, the verifier only where bearer tokens are
/// asked for.
pub open spec fn startup_order(suggest_enabled: bool, auth_enabled: bool) -> Seq<StartupStep> {
    seq![StartupStep::OpenPools, StartupStep::RunMigrations, StartupStep::StartWriters] + (
    if suggest_enabled {
        seq![StartupStep::BuildSuggestIndex]
    } else {
        Seq::empty()
    }) + (if auth_enabled {
        seq![StartupStep::BuildVerifier]
    } else {
        Seq::empty()
    }) + seq![StartupStep::StartSweeper, StartupStep::BindListener]
}

/// The steps that take the service down, in order.
pub open spec fn shutdown_order() -> Seq<ShutdownStep> {
    seq![
        ShutdownStep::StopAccepting,
        ShutdownStep::CloseWriters,
        ShutdownStep::AwaitDrain,
        ShutdownStep::ClosePools,
    ]
}

/// The steps that bring the service up with these settings, in order.
pub fn startup_steps(config: &Config) -> (r: Vec<StartupStep>)
    ensures
        r@ == startup_order(config.execution_suggest.enabled, config.auth.enabled),
{
    let mut steps: Vec<StartupStep> = Vec::new();
    steps.push(StartupStep::OpenPools);
    steps.push(StartupStep::RunMigrations);
    steps.push(StartupStep::StartWriters);
    if config.execution_suggest.enabled {
        steps.push(StartupStep::BuildSuggestIndex);
    }
    if config.auth.enabled {
        steps.push(StartupStep::BuildVerifier);
    }
    steps.push(StartupStep::StartSweeper);
    steps.push(StartupStep::BindListener);
    assert(steps@ =~= startup_order(config.execution_suggest.enabled, config.auth.enabled));
    steps
}

/// The steps that take the service down, in order.
pub fn shutdown_steps() -> (r: Vec<ShutdownStep>)
    ensures
        r@ == shutdown_order(),
{
    let mut steps: Vec<ShutdownStep> = Vec::new();
    steps.push(ShutdownStep::StopAccepting);
    steps.push(ShutdownStep::CloseWriters);
    steps.push(ShutdownStep::AwaitDrain);
    steps.push(ShutdownStep::ClosePools);
    assert(steps@ =~= shutdown_order());
    steps
}

} // verus!
