//! The proxy's side of the protocol: how a caller-facing handle turns the
//! runner's answer — or the lack of one, after the runner thread exited —
//! into its own result. The channel plumbing around these decisions lives
//! with the embedding; requests and responses pair up by strict
//! alternation, so each interpreter looks at exactly one received value.

use vstd::prelude::*;

use crate::diagnostics::Diagnostic;
use crate::diagnostics::HostError;
use crate::runner::PluginRunnerResponse;

verus! {

/// Turns the response received for a `LoadPlugins` request into the
/// caller's result. A closed channel (no response will ever come) is
/// `AlreadyClosed`; otherwise the runner's own load result is passed on.
/// Strict alternation keeps a `Run` response from arriving here.
pub fn interpret_load_response(resp: Option<PluginRunnerResponse>) -> (r: Result<(), HostError>)
    requires
        !(resp matches Some(PluginRunnerResponse::Run(_))),
    ensures
        match resp {
            None => r == Result::<(), HostError>::Err(HostError::AlreadyClosed),
            Some(PluginRunnerResponse::LoadPlugin(res)) => r == res,
            Some(PluginRunnerResponse::Run(_)) => false,
        },
{
    match resp {
        None => Err(HostError::AlreadyClosed),
        Some(PluginRunnerResponse::LoadPlugin(res)) => res,
        Some(PluginRunnerResponse::Run(_)) => vstd::pervasive::unreached(),
    }
}

/// Turns the response received for a `Run` request into the caller's
/// result: the runner's diagnostics (or its error) when a `Run` response
/// arrived, and `AlreadyClosed` when the channel closed instead.
pub fn interpret_run_response(resp: Option<PluginRunnerResponse>) -> (r: Result<
    Vec<Diagnostic>,
    HostError,
>)
    ensures
        match resp {
            Some(PluginRunnerResponse::Run(res)) => r == res,
            _ => r == Result::<Vec<Diagnostic>, HostError>::Err(HostError::AlreadyClosed),
        },
{
    match resp {
        Some(PluginRunnerResponse::Run(res)) => res,
        _ => Err(HostError::AlreadyClosed),
    }
}

} // verus!
