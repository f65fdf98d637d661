//! The error taxonomy of the control plane and the fixed rules the
//! request handlers translate it by.

use vstd::prelude::*;

verus! {

/// What a provider adapter call can fail with.
#[derive(Clone, Copy, Debug, PartialEq, Eq, Structural)]
pub enum ProviderError {
    /// Network timeout, 5xx: retried at the next tick.
    Transient,
    /// Auth or validation failure: surfaced, not retried.
    Permanent,
    /// Budget exhausted; the reconciler treats this as transient.
    RateLimited,
}

/// Whether the caller retries a provider error at the next tick.
pub fn is_retryable(e: &ProviderError) -> (r: bool)
    ensures
        r == (*e == ProviderError::Transient || *e == ProviderError::RateLimited),
{
    match e {
        ProviderError::Transient => true,
        ProviderError::RateLimited => true,
        ProviderError::Permanent => false,
    }
}

/// Every error kind the core categorizes.
#[derive(Clone, Copy, Debug, PartialEq, Eq, Structural)]
pub enum CoreError {
    Provider(ProviderError),
    InvalidRules,
    Runtime,
    ProbeFailure,
    RolloutInProgress,
    UnknownRegion,
    UnknownStrategyType,
}

/// The response status a request handler answers an error with:
/// permanent provider failures and invalid rules are the caller's
/// fault, a rollout in flight is a conflict, everything else is the
/// server's.
pub fn response_code(e: &CoreError) -> (code: u16)
    ensures
        *e == CoreError::Provider(ProviderError::Permanent) ==> code == 400,
        *e == CoreError::InvalidRules ==> code == 400,
        *e == CoreError::RolloutInProgress ==> code == 409,
        *e != CoreError::Provider(ProviderError::Permanent) && *e != CoreError::InvalidRules
            && *e != CoreError::RolloutInProgress ==> code == 500,
{
    match e {
        CoreError::Provider(ProviderError::Permanent) => 400,
        CoreError::InvalidRules => 400,
        CoreError::RolloutInProgress => 409,
        _ => 500,
    }
}

} // verus!
