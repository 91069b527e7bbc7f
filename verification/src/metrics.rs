//! The events that the gateway hands to its metrics sink.

use vstd::prelude::*;
use crate::providers::ProviderKind;

verus! {

/// One increment of one counter.
#[derive(Debug)]
pub enum Metric {
    /// `rpc_call{chain}`: a provider was selected for a call on this chain.
    RpcCall { chain_id: String },
    /// `rejected_project`: the tenant lookup failed or refused the tenant.
    RejectedProject,
    /// `rate_limited_call{provider, project}`: the provider throttled a call of
    /// this project. `provider` is the provider's place in the registry.
    RateLimitedCall { provider: usize, kind: ProviderKind, project_id: String },
}

impl Metric {
    /// Whether this is the throttling counter of one provider and project.
    pub open spec fn is_rate_limited_call(&self, provider: usize, project_id: Seq<char>) -> bool {
        *self matches Metric::RateLimitedCall { provider: p, project_id: t, .. } && p == provider
            && t@ == project_id
    }

    /// Whether this is the call counter of one chain.
    pub open spec fn is_rpc_call(&self, chain_id: Seq<char>) -> bool {
        *self matches Metric::RpcCall { chain_id: c } && c@ == chain_id
    }
}

} // verus!
