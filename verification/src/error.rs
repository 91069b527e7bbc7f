//! The gateway's error taxonomy.

use vstd::prelude::*;

verus! {

/// Every way in which a call can fail, by who can fix it.
#[derive(Clone, Copy, Debug, PartialEq, Eq, Structural)]
pub enum RpcError {
    /// An input is missing or invalid; the caller can fix it.
    FieldValidation,
    /// The tenant lookup failed or refused the tenant.
    AccessError,
    /// No provider is registered for the chain.
    ChainNotFound,
    /// The provider is throttling; the one condition that starts a cooldown.
    ProviderThrottled,
    /// The backend could not be reached, or did not answer in time.
    ProviderTransportError,
    /// The backend answered in a malformed or unexpected shape.
    ProviderProtocolError,
}

/// The HTTP status under which each error is shown to the caller. Every
/// rejection of the gateway takes its status from here.
pub open spec fn status_of(error: RpcError) -> u16 {
    match error {
        RpcError::FieldValidation => 400,
        RpcError::AccessError => 403,
        RpcError::ChainNotFound => 400,
        RpcError::ProviderThrottled => 429,
        RpcError::ProviderTransportError => 502,
        RpcError::ProviderProtocolError => 502,
    }
}

impl RpcError {
    /// The HTTP status under which this error is shown to the caller: a 4xx
    /// status for what the caller or the tenant caused and for throttling, a
    /// 5xx status for what the backend caused.
    pub fn status_code(&self) -> (status: u16)
        ensures
            status == status_of(*self),
            self.is_client_error_spec() <==> 400 <= status < 500,
            !self.is_client_error_spec() <==> 500 <= status < 600,
    {
        match self {
            RpcError::FieldValidation => 400,
            RpcError::AccessError => 403,
            RpcError::ChainNotFound => 400,
            RpcError::ProviderThrottled => 429,
            RpcError::ProviderTransportError => 502,
            RpcError::ProviderProtocolError => 502,
        }
    }

    /// Errors that are answered with a 4xx status.
    pub open spec fn is_client_error_spec(&self) -> bool {
        !(*self is ProviderTransportError || *self is ProviderProtocolError)
    }

    /// Whether this error alone may send a call on to the next candidate or
    /// start a cooldown.
    pub fn is_throttling(&self) -> (throttling: bool)
        ensures
            throttling == (*self is ProviderThrottled),
    {
        match self {
            RpcError::ProviderThrottled => true,
            _ => false,
        }
    }
}

} // verus!
