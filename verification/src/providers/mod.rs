//! Providers: the capability units that forward one call to one backend.
//!
//! A provider knows which chains it serves, how to address the backend for a
//! chain, and how to tell that the backend is throttling. Sending the request
//! is left to the caller: a provider turns a call into an [`OutboundRequest`]
//! and judges the [`ProviderResponse`] that came back.

use vstd::prelude::*;
use crate::error::RpcError;
use crate::providers::binance::BinanceProvider;

pub mod binance;

verus! {

/// Which backend operator a provider wraps.
#[derive(Clone, Copy, Debug, PartialEq, Eq, Structural)]
pub enum ProviderKind {
    Binance,
}

/// What has to be sent to a backend: always a `POST` of `body` to `uri`, with
/// the header `Content-Type` set to `content_type`.
#[derive(Clone, Debug)]
pub struct OutboundRequest {
    pub uri: String,
    pub content_type: String,
    pub body: Vec<u8>,
}

/// What a backend answered: its HTTP status and its body, both untouched.
#[derive(Clone, Debug)]
pub struct ProviderResponse {
    pub status: u16,
    pub body: Vec<u8>,
}

/// How the response of a backend is judged.
#[derive(Clone, Copy, Debug, PartialEq, Eq, Structural)]
pub enum Classification {
    /// A success status and a JSON-RPC response without an error member.
    Served,
    /// The provider's own predicate recognised throttling.
    Throttled,
    /// A status outside 200..=299 that is no throttling.
    BackendError,
    /// A success status over a body that is no JSON-RPC response, or over one
    /// that carries an error member.
    ProtocolError,
}

/// Whether a JSON-RPC response carries an error member, as decoding the bytes
/// into `jsonrpc::Response` with `serde_json::from_slice` tells it; `None`
/// where the bytes do not decode.
pub uninterp spec fn json_rpc_error_flag(body: Seq<u8>) -> Option<bool>;

/// Trusted: decodes `body` with `serde_json::from_slice::<jsonrpc::Response>`
/// and reports whether the field `error` is present. The contract only names
/// the outcome, [`json_rpc_error_flag`].
#[verifier::external_body]
pub(crate) fn decode_error_flag(body: &[u8]) -> (flag: Option<bool>)
    ensures
        flag == json_rpc_error_flag(body@),
{
    match serde_json::from_slice::<jsonrpc::Response>(body) {
        Ok(response) => Some(response.error.is_some()),
        Err(_) => None,
    }
}

/// The status that each kind of backend uses to say that it is throttling.
pub open spec fn throttle_signal(kind: ProviderKind, status: u16) -> bool {
    match kind {
        ProviderKind::Binance => status == 403,
    }
}

/// The mark under which a kind of provider appears in metrics.
pub open spec fn kind_label(kind: ProviderKind) -> Seq<char> {
    match kind {
        ProviderKind::Binance => "Binance"@,
    }
}

/// The judgement on a response, given whether the provider recognised
/// throttling, the HTTP status and what decoding the body told.
pub open spec fn classification_of(rate_limited: bool, status: u16, error_flag: Option<bool>)
    -> Classification {
    if rate_limited {
        Classification::Throttled
    } else if !(200 <= status < 300) {
        Classification::BackendError
    } else if error_flag == Some(false) {
        Classification::Served
    } else {
        Classification::ProtocolError
    }
}

/// Judges a response from what is known of it. Throttling is decided by the
/// provider's predicate alone and comes first; a status outside the success
/// range is a backend error whatever the body holds.
pub fn classify_response(rate_limited: bool, status: u16, error_flag: Option<bool>) -> (class:
    Classification)
    ensures
        class == classification_of(rate_limited, status, error_flag),
{
    if rate_limited {
        Classification::Throttled
    } else if status < 200 || status >= 300 {
        Classification::BackendError
    } else {
        match error_flag {
            Some(false) => Classification::Served,
            _ => Classification::ProtocolError,
        }
    }
}

/// Whether a backend answered with a JSON-RPC error under a success status:
/// the one oddity that a provider points out when it hands an answer back.
pub open spec fn is_error_under_success(status: u16, error_flag: Option<bool>) -> bool {
    200 <= status < 300 && error_flag == Some(true)
}

/// Whether a backend answered with a JSON-RPC error under a success status,
/// given the status and what decoding the body told.
pub fn error_under_success(status: u16, error_flag: Option<bool>) -> (strange: bool)
    ensures
        strange == is_error_under_success(status, error_flag),
{
    match error_flag {
        Some(true) => 200 <= status && status < 300,
        _ => false,
    }
}

/// Whether a provider of this kind throttles when it answers with `status`.
pub fn is_throttled(kind: ProviderKind, status: u16) -> (limited: bool)
    ensures
        limited == throttle_signal(kind, status),
{
    match kind {
        ProviderKind::Binance => status == 403,
    }
}

/// Judges the response of a backend of the kind given: the status is held
/// against the kind's throttling signal, and the body is decoded as a
/// JSON-RPC response.
pub fn classify(kind: ProviderKind, response: &ProviderResponse) -> (class: Classification)
    ensures
        class == classification_of(
            throttle_signal(kind, response.status),
            response.status,
            json_rpc_error_flag(response.body@),
        ),
{
    let limited = is_throttled(kind, response.status);
    let flag = decode_error_flag(response.body.as_slice());
    classify_response(limited, response.status, flag)
}

impl Classification {
    /// The error that a judgement stands for, if it is one.
    pub open spec fn error_spec(&self) -> Option<RpcError> {
        match *self {
            Classification::Served => None,
            Classification::Throttled => Some(RpcError::ProviderThrottled),
            Classification::BackendError => Some(RpcError::ProviderProtocolError),
            Classification::ProtocolError => Some(RpcError::ProviderProtocolError),
        }
    }

    /// The error to log for a judgement: none for a response that was
    /// served, throttling for a throttled one, a protocol error for any other.
    pub fn error(&self) -> (error: Option<RpcError>)
        ensures
            error == self.error_spec(),
    {
        match self {
            Classification::Served => None,
            Classification::Throttled => Some(RpcError::ProviderThrottled),
            Classification::BackendError => Some(RpcError::ProviderProtocolError),
            Classification::ProtocolError => Some(RpcError::ProviderProtocolError),
        }
    }
}

impl ProviderKind {
    /// The mark under which this kind appears in metrics.
    pub fn label(&self) -> (label: String)
        ensures
            label@ == kind_label(*self),
    {
        match self {
            ProviderKind::Binance => String::from_str("Binance"),
        }
    }
}

/// The closed set of provider implementations behind one capability interface.
#[derive(Debug)]
pub enum Provider {
    Binance(BinanceProvider),
}

impl Provider {
    /// The endpoint of each chain that this provider serves, by normalized
    /// chain identifier.
    pub open spec fn endpoints(&self) -> Map<Seq<char>, Seq<char>> {
        match *self {
            Provider::Binance(p) => p@,
        }
    }

    pub open spec fn kind(&self) -> ProviderKind {
        match *self {
            Provider::Binance(_) => ProviderKind::Binance,
        }
    }

    /// Whether this provider serves the chain. `chain_id` is compared as it is
    /// given, with the normalized identifiers that the provider holds.
    pub fn supports_caip_chainid(&self, chain_id: &str) -> (supported: bool)
        ensures
            supported == self.endpoints().contains_key(chain_id@),
    {
        match self {
            Provider::Binance(p) => p.supports_caip_chainid(chain_id),
        }
    }

    /// The chains that this provider serves, each once.
    pub fn supported_caip_chains(&self) -> (chains: Vec<String>)
        ensures
            forall|k: Seq<char>|
                self.endpoints().contains_key(k) <==> exists|i: int|
                    0 <= i < chains.len() && #[trigger] chains[i]@ == k,
            forall|i: int, j: int|
                0 <= i < j < chains.len() ==> #[trigger] chains[i]@ != #[trigger] chains[j]@,
    {
        match self {
            Provider::Binance(p) => p.supported_caip_chains(),
        }
    }

    pub fn provider_kind(&self) -> (kind: ProviderKind)
        ensures
            kind == self.kind(),
    {
        match self {
            Provider::Binance(p) => p.provider_kind(),
        }
    }

    /// Whether the response says that the backend is throttling.
    pub fn is_rate_limited(&self, response: &ProviderResponse) -> (limited: bool)
        ensures
            limited == throttle_signal(self.kind(), response.status),
    {
        match self {
            Provider::Binance(p) => p.is_rate_limited(response),
        }
    }

    /// The request that forwards `body` to the backend of `chain_id`.
    pub fn proxy(&self, chain_id: &str, body: Vec<u8>) -> (request: Result<
        OutboundRequest,
        RpcError,
    >)
        ensures
            request is Ok <==> self.endpoints().contains_key(chain_id@),
            request matches Ok(r) ==> r.uri@ == self.endpoints()[chain_id@] && r.body@ == body@
                && r.content_type@ == "application/json"@,
            request matches Err(e) ==> e == RpcError::ChainNotFound,
    {
        match self {
            Provider::Binance(p) => p.proxy(chain_id, body),
        }
    }

    /// Judges a response of this provider's backend.
    pub fn classify(&self, response: &ProviderResponse) -> (class: Classification)
        ensures
            class == classification_of(
                throttle_signal(self.kind(), response.status),
                response.status,
                json_rpc_error_flag(response.body@),
            ),
    {
        match self {
            Provider::Binance(p) => p.classify(response),
        }
    }
}

} // verus!
