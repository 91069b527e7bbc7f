use rpc_proxy::analytics::{GeoData, RpcRequest};
use rpc_proxy::error::RpcError;
use rpc_proxy::handlers::proxy::{
    handler, Command, FailoverPolicy, GatewayCall, GatewayEvent, GatewayState, GatewayStep, ProviderReply,
    TenantLookup,
};
use rpc_proxy::handlers::RpcQueryParams;
use rpc_proxy::metrics::Metric;
use rpc_proxy::providers::binance::{BinanceConfig, BinanceProvider};
use rpc_proxy::providers::{Provider, ProviderKind, ProviderResponse};
use rpc_proxy::registry::ProviderRegistry;
use rpc_proxy::tracker::RateLimitTracker;

const BLOCK_NUMBER: &str = r#"{"jsonrpc":"2.0","id":1,"method":"eth_blockNumber","params":[]}"#;
const BLOCK_NUMBER_RESULT: &str = r#"{"jsonrpc":"2.0","id":1,"result":"0x10"}"#;
const NO_FAILOVER: FailoverPolicy = FailoverPolicy { on_throttle: false, on_transport_error: false };
const FULL_FAILOVER: FailoverPolicy = FailoverPolicy { on_throttle: true, on_transport_error: true };

fn registry(entries: &[(&str, &str, u32)]) -> ProviderRegistry {
    let mut registry = ProviderRegistry::new();
    for (chain, uri, priority) in entries {
        let config = BinanceConfig { supported_chains: vec![(chain.to_string(), uri.to_string())] };
        registry.register(Provider::Binance(BinanceProvider::new(&config)), *priority);
    }
    registry
}

fn block_number_request() -> Option<RpcRequest> {
    Some(RpcRequest { id: "1".to_string(), jsonrpc: "2.0".to_string(), method: "eth_blockNumber".to_string() })
}

fn call(project_id: &str, chain_id: &str, body: &[u8], request: Option<RpcRequest>, policy: FailoverPolicy) -> GatewayCall {
    GatewayCall::new(
        RpcQueryParams { chain_id: chain_id.to_string(), project_id: project_id.to_string() },
        Some("203.0.113.7:4711".to_string()),
        body.to_vec(),
        request,
        policy,
    )
}

fn forwarding(project_id: &str, chain_id: &str, body: &[u8], registry: &ProviderRegistry, tracker: &mut RateLimitTracker, policy: FailoverPolicy) -> GatewayStep {
    let step = handler(call(project_id, chain_id, body, None, policy), GatewayEvent::Received, registry, tracker, 1000);
    handler(step.call, GatewayEvent::TenantResolved(TenantLookup::Allowed), registry, tracker, 1000)
}

fn reply(status: u16, body: &str) -> GatewayEvent {
    GatewayEvent::ProviderReplied(ProviderReply::Response(ProviderResponse { status, body: body.as_bytes().to_vec() }))
}

#[test]
fn successful_call_is_answered_verbatim() {
    let registry = registry(&[("eip155:1", "https://mainnet.example/", 1)]);
    let mut tracker = RateLimitTracker::new(30);
    let mut rpc_calls = 0;

    let step = handler(call("p1", "eip155:1", BLOCK_NUMBER.as_bytes(), block_number_request(), NO_FAILOVER), GatewayEvent::Received, &registry, &mut tracker, 1000);
    assert_eq!(step.call.state, GatewayState::ResolvingTenant);
    assert!(step.metric.is_none() && step.analytics.is_none() && step.warning.is_none());
    assert!(matches!(&step.command, Command::ResolveTenant { project_id } if project_id == "p1"));

    let step = handler(step.call, GatewayEvent::TenantResolved(TenantLookup::Allowed), &registry, &mut tracker, 1000);
    assert_eq!(step.call.state, GatewayState::Forwarding);
    if let Some(Metric::RpcCall { chain_id }) = &step.metric {
        assert_eq!(chain_id, "eip155:1");
        rpc_calls += 1;
    }
    assert!(matches!(step.command, Command::Forward { provider: 0 }));
    let info = step.analytics.expect("analytics for a valid request");
    assert_eq!(info.project_id, "p1");
    assert_eq!(info.chain_id, "eip155:1");
    assert_eq!(info.method, "eth_blockNumber");
    assert_eq!(info.sender.as_deref(), Some("203.0.113.7:4711"));
    assert_eq!(info.country, None);
    assert_eq!(info.continent, None);
    let info = info.with_geo(&Some(GeoData { country: Some("DE".to_string()), continent: None }));
    assert_eq!(info.project_id, "p1");
    assert_eq!(info.chain_id, "eip155:1");
    assert_eq!(info.method, "eth_blockNumber");
    assert_eq!(info.sender.as_deref(), Some("203.0.113.7:4711"));
    assert_eq!(info.country.as_deref(), Some("DE"));
    assert_eq!(info.continent, None);
    let info = info.with_geo(&None);
    assert_eq!((info.country, info.continent), (None, None));
    let outbound = step.call.outbound().expect("a request to send");
    assert_eq!(outbound.uri, "https://mainnet.example/");
    assert_eq!(outbound.content_type, "application/json");
    assert_eq!(outbound.body, BLOCK_NUMBER.as_bytes());
    assert_eq!(step.call.selected_provider(), Some(0));

    let step = handler(step.call, reply(200, BLOCK_NUMBER_RESULT), &registry, &mut tracker, 1001);
    assert_eq!(step.call.state, GatewayState::Completed);
    assert!(matches!(step.metric, Some(Metric::RpcCall { .. })) == false);
    assert!(step.metric.is_none() && step.analytics.is_none() && step.warning.is_none());
    match step.command {
        Command::Complete(response) => {
            assert_eq!(response.status, 200);
            assert_eq!(response.body, BLOCK_NUMBER_RESULT.as_bytes());
        }
        other => panic!("unexpected command {:?}", other),
    }
    assert_eq!(rpc_calls, 1);
    assert_eq!(tracker.rejection_count(0, "p1"), 0);
}

#[test]
fn missing_project_id_is_rejected() {
    let registry = registry(&[("eip155:1", "https://mainnet.example/", 1)]);
    let mut tracker = RateLimitTracker::new(30);
    let step = handler(call("", "eip155:1", BLOCK_NUMBER.as_bytes(), block_number_request(), NO_FAILOVER), GatewayEvent::Received, &registry, &mut tracker, 1000);
    assert_eq!(step.call.state, GatewayState::Rejected);
    assert!(step.metric.is_none());
    assert!(step.analytics.is_none());
    assert_eq!(step.warning, Some(RpcError::FieldValidation));
    assert!(step.call.candidates.is_empty());
    assert!(step.call.outbound().is_none());
    match step.command {
        Command::Reject(rejection) => {
            assert!(rejection.status >= 400 && rejection.status < 500);
            assert_eq!(rejection.status, 400);
            assert_eq!(rejection.field, "projectId");
            assert_eq!(rejection.message, "No project id provided");
        }
        other => panic!("unexpected command {:?}", other),
    }
}

#[test]
fn missing_project_id_wins_over_unknown_chain() {
    let registry = ProviderRegistry::new();
    let mut tracker = RateLimitTracker::new(30);
    let step = handler(call("", "nope:0", b"", None, NO_FAILOVER), GatewayEvent::Received, &registry, &mut tracker, 0);
    assert!(matches!(&step.command, Command::Reject(r) if r.field == "projectId" && r.status == 400));
    assert!(step.metric.is_none());
}

#[test]
fn denied_tenant_is_rejected_and_counted() {
    let registry = registry(&[("eip155:1", "https://mainnet.example/", 1)]);
    let mut tracker = RateLimitTracker::new(30);
    let step = handler(call("p1", "eip155:1", b"{}", None, NO_FAILOVER), GatewayEvent::Received, &registry, &mut tracker, 0);
    let step = handler(step.call, GatewayEvent::TenantResolved(TenantLookup::Denied { reason: "OriginNotAllowed".to_string() }), &registry, &mut tracker, 0);
    assert_eq!(step.call.state, GatewayState::Rejected);
    assert!(matches!(step.metric, Some(Metric::RejectedProject)));
    assert!(step.analytics.is_none());
    assert_eq!(step.warning, Some(RpcError::AccessError));
    assert!(matches!(&step.command, Command::Reject(r) if r.status == 403 && r.field == "projectId" && r.message == "OriginNotAllowed"));
    assert!(step.call.outbound().is_none());
}

#[test]
fn failed_tenant_lookup_is_rejected_and_counted() {
    let registry = registry(&[("eip155:1", "https://mainnet.example/", 1)]);
    let mut tracker = RateLimitTracker::new(30);
    let step = handler(call("p1", "eip155:1", b"{}", None, NO_FAILOVER), GatewayEvent::Received, &registry, &mut tracker, 0);
    let step = handler(step.call, GatewayEvent::TenantResolved(TenantLookup::Failed { reason: "Timeout".to_string() }), &registry, &mut tracker, 0);
    assert_eq!(step.call.state, GatewayState::Rejected);
    assert!(matches!(step.metric, Some(Metric::RejectedProject)));
    assert!(matches!(&step.command, Command::Reject(r) if r.status == 403 && r.field == "projectId" && r.message == "Timeout"));
}

#[test]
fn unknown_chain_is_rejected_without_provider() {
    let registry = registry(&[("eip155:1", "https://mainnet.example/", 1)]);
    let mut tracker = RateLimitTracker::new(30);
    let step = handler(call("p1", "EIP155:999", BLOCK_NUMBER.as_bytes(), block_number_request(), NO_FAILOVER), GatewayEvent::Received, &registry, &mut tracker, 0);
    let step = handler(step.call, GatewayEvent::TenantResolved(TenantLookup::Allowed), &registry, &mut tracker, 0);
    assert_eq!(step.call.state, GatewayState::Rejected);
    assert!(step.metric.is_none());
    assert!(step.analytics.is_none());
    assert_eq!(step.warning, Some(RpcError::ChainNotFound));
    assert!(step.call.candidates.is_empty());
    assert!(step.call.outbound().is_none());
    match step.command {
        Command::Reject(rejection) => {
            assert_eq!(rejection.status, 400);
            assert_eq!(rejection.field, "chainId");
            assert_eq!(rejection.message, "We don't support the chainId you provided: eip155:999");
        }
        other => panic!("unexpected command {:?}", other),
    }
}

#[test]
fn chain_id_case_routes_identically() {
    let registry = registry(&[("eip155:1", "https://low.example/", 1), ("eip155:1", "https://high.example/", 2)]);
    let mut tracker = RateLimitTracker::new(30);
    let lower = forwarding("p1", "eip155:1", b"{}", &registry, &mut tracker, NO_FAILOVER);
    let upper = forwarding("p1", "EIP155:1", b"{}", &registry, &mut tracker, NO_FAILOVER);
    assert_eq!(lower.call.chain_id, "eip155:1");
    assert_eq!(upper.call.chain_id, "eip155:1");
    assert_eq!(lower.call.selected_provider(), Some(1));
    assert_eq!(upper.call.selected_provider(), Some(1));
    assert_eq!(lower.call.outbound().unwrap().uri, upper.call.outbound().unwrap().uri);
    let ids = |step: &GatewayStep| step.call.candidates.iter().map(|c| c.provider).collect::<Vec<_>>();
    assert_eq!(ids(&lower), vec![1, 0]);
    assert_eq!(ids(&upper), vec![1, 0]);
    assert!(matches!(&upper.metric, Some(Metric::RpcCall { chain_id }) if chain_id == "eip155:1"));
}

#[test]
fn sole_provider_rate_limited_rejects_and_counts_once() {
    let registry = registry(&[("eip155:56", "https://bsc.example/", 1)]);
    let mut tracker = RateLimitTracker::new(30);
    let mut rate_limited = 0;
    let step = forwarding("p1", "eip155:56", BLOCK_NUMBER.as_bytes(), &registry, &mut tracker, FULL_FAILOVER);
    if matches!(step.metric, Some(Metric::RateLimitedCall { .. })) {
        rate_limited += 1;
    }
    let step = handler(step.call, reply(403, "slow down"), &registry, &mut tracker, 1005);
    match &step.metric {
        Some(Metric::RateLimitedCall { provider, kind, project_id }) => {
            assert_eq!(*provider, 0);
            assert_eq!(*kind, ProviderKind::Binance);
            assert_eq!(project_id, "p1");
            rate_limited += 1;
        }
        other => panic!("unexpected metric {:?}", other),
    }
    assert_eq!(step.call.state, GatewayState::Rejected);
    assert_eq!(step.warning, Some(RpcError::ProviderThrottled));
    assert!(matches!(&step.command, Command::Reject(r) if r.status == 429 && r.field == "provider" && r.message == "The provider is rate limited"));
    assert_eq!(tracker.rejection_count(0, "p1"), 1);
    assert_eq!(tracker.rejected_until(0, "p1"), 1035);

    let step = handler(step.call, reply(403, "slow down"), &registry, &mut tracker, 1006);
    if matches!(step.metric, Some(Metric::RateLimitedCall { .. })) {
        rate_limited += 1;
    }
    assert!(matches!(step.command, Command::Wait));
    assert_eq!(rate_limited, 1);
    assert_eq!(tracker.rejection_count(0, "p1"), 1);
}

#[test]
fn throttling_without_failover_rejects_despite_candidates() {
    let registry = registry(&[("eip155:56", "https://one.example/", 2), ("eip155:56", "https://two.example/", 1)]);
    let mut tracker = RateLimitTracker::new(30);
    let step = forwarding("p1", "eip155:56", b"{}", &registry, &mut tracker, NO_FAILOVER);
    assert_eq!(step.call.candidates.len(), 2);
    let step = handler(step.call, reply(403, ""), &registry, &mut tracker, 1005);
    assert_eq!(step.call.state, GatewayState::Rejected);
    assert!(matches!(&step.command, Command::Reject(r) if r.status == 429));
    assert!(matches!(&step.metric, Some(Metric::RateLimitedCall { provider: 0, .. })));
}

#[test]
fn throttling_with_failover_tries_next_candidate() {
    let registry = registry(&[("eip155:56", "https://one.example/", 2), ("eip155:56", "https://two.example/", 1)]);
    let mut tracker = RateLimitTracker::new(30);
    let body = b"\xff\xfe not json at all";
    let step = forwarding("p1", "eip155:56", body, &registry, &mut tracker, FULL_FAILOVER);
    assert_eq!(step.call.outbound().unwrap().uri, "https://one.example/");
    let step = handler(step.call, reply(403, ""), &registry, &mut tracker, 1005);
    assert_eq!(step.call.state, GatewayState::Forwarding);
    assert!(matches!(step.command, Command::Forward { provider: 1 }));
    assert!(matches!(&step.metric, Some(Metric::RateLimitedCall { provider: 0, .. })));
    assert_eq!(step.call.outbound().unwrap().uri, "https://two.example/");
    assert_eq!(step.call.outbound().unwrap().body, body);
    assert!(tracker.is_in_cooldown(0, "p1", 1006));
    assert!(!tracker.is_in_cooldown(1, "p1", 1006));

    let step = handler(step.call, reply(403, ""), &registry, &mut tracker, 1007);
    assert_eq!(step.call.state, GatewayState::Rejected);
    assert!(matches!(&step.metric, Some(Metric::RateLimitedCall { provider: 1, .. })));
    assert!(matches!(&step.command, Command::Reject(r) if r.status == 429));
    assert!(tracker.is_in_cooldown(1, "p1", 1008));
}

#[test]
fn cooldown_steers_next_call_of_same_tenant_only() {
    let registry = registry(&[("eip155:56", "https://low.example/", 1), ("eip155:56", "https://high.example/", 2)]);
    let mut tracker = RateLimitTracker::new(30);
    let step = forwarding("tenant-a", "eip155:56", b"{}", &registry, &mut tracker, NO_FAILOVER);
    assert_eq!(step.call.selected_provider(), Some(1));
    handler(step.call, reply(403, ""), &registry, &mut tracker, 1000);

    let again = forwarding("tenant-a", "eip155:56", b"{}", &registry, &mut tracker, NO_FAILOVER);
    assert_eq!(again.call.selected_provider(), Some(0));
    assert_eq!(again.call.candidates.len(), 1);
    let other = forwarding("tenant-b", "eip155:56", b"{}", &registry, &mut tracker, NO_FAILOVER);
    assert_eq!(other.call.selected_provider(), Some(1));
    assert_eq!(other.call.candidates.len(), 2);
}

#[test]
fn malformed_body_is_forwarded_without_analytics() {
    let registry = registry(&[("eip155:1", "https://mainnet.example/", 1)]);
    let mut tracker = RateLimitTracker::new(30);
    let body = b"{\"jsonrpc\": oops";
    let step = handler(call("p1", "eip155:1", body, None, NO_FAILOVER), GatewayEvent::Received, &registry, &mut tracker, 0);
    let step = handler(step.call, GatewayEvent::TenantResolved(TenantLookup::Allowed), &registry, &mut tracker, 0);
    assert!(step.analytics.is_none());
    assert!(matches!(&step.metric, Some(Metric::RpcCall { chain_id }) if chain_id == "eip155:1"));
    assert!(matches!(step.command, Command::Forward { provider: 0 }));
    assert_eq!(step.call.outbound().unwrap().body, body);
    let step = handler(step.call, reply(200, BLOCK_NUMBER_RESULT), &registry, &mut tracker, 1);
    assert!(matches!(&step.command, Command::Complete(r) if r.status == 200 && r.body == BLOCK_NUMBER_RESULT.as_bytes()));
}

#[test]
fn backend_error_is_answered_verbatim() {
    let registry = registry(&[("eip155:1", "https://mainnet.example/", 1)]);
    let mut tracker = RateLimitTracker::new(30);
    let step = forwarding("p1", "eip155:1", b"{}", &registry, &mut tracker, FULL_FAILOVER);
    let step = handler(step.call, reply(401, "unauthorized"), &registry, &mut tracker, 1001);
    assert_eq!(step.call.state, GatewayState::Completed);
    assert_eq!(step.warning, Some(RpcError::ProviderProtocolError));
    assert!(step.metric.is_none());
    assert!(matches!(&step.command, Command::Complete(r) if r.status == 401 && r.body == b"unauthorized"));
    assert_eq!(tracker.rejection_count(0, "p1"), 0);
}

#[test]
fn malformed_response_is_answered_verbatim_with_warning() {
    let registry = registry(&[("eip155:1", "https://mainnet.example/", 1)]);
    let mut tracker = RateLimitTracker::new(30);
    let step = forwarding("p1", "eip155:1", b"{}", &registry, &mut tracker, FULL_FAILOVER);
    let step = handler(step.call, reply(200, "<html>"), &registry, &mut tracker, 1001);
    assert_eq!(step.call.state, GatewayState::Completed);
    assert_eq!(step.warning, Some(RpcError::ProviderProtocolError));
    assert!(matches!(&step.command, Command::Complete(r) if r.status == 200 && r.body == b"<html>"));

    let step = forwarding("p1", "eip155:1", b"{}", &registry, &mut tracker, FULL_FAILOVER);
    let strange = r#"{"jsonrpc":"2.0","id":1,"error":{"code":-32000,"message":"boom"}}"#;
    let step = handler(step.call, reply(200, strange), &registry, &mut tracker, 1001);
    assert_eq!(step.warning, Some(RpcError::ProviderProtocolError));
    assert!(matches!(&step.command, Command::Complete(r) if r.status == 200 && r.body == strange.as_bytes()));
}

#[test]
fn transport_failure_without_candidates_is_a_server_error() {
    let registry = registry(&[("eip155:1", "https://mainnet.example/", 1)]);
    let mut tracker = RateLimitTracker::new(30);
    let step = forwarding("p1", "eip155:1", b"{}", &registry, &mut tracker, FULL_FAILOVER);
    let step = handler(step.call, GatewayEvent::ProviderReplied(ProviderReply::ConnectionFailed), &registry, &mut tracker, 1001);
    assert_eq!(step.call.state, GatewayState::Rejected);
    assert_eq!(step.warning, Some(RpcError::ProviderTransportError));
    assert!(step.metric.is_none());
    assert!(matches!(&step.command, Command::Reject(r) if r.status == 502 && r.field == "provider" && r.message == "The provider could not be reached"));
    assert_eq!(tracker.rejection_count(0, "p1"), 0);

    let step = forwarding("p1", "eip155:1", b"{}", &registry, &mut tracker, FULL_FAILOVER);
    let step = handler(step.call, GatewayEvent::ProviderReplied(ProviderReply::TimedOut), &registry, &mut tracker, 1001);
    assert!(matches!(&step.command, Command::Reject(r) if r.status == 502 && r.field == "provider" && r.message == "The provider did not answer in time"));
}

#[test]
fn transport_failure_fails_over_where_allowed() {
    let registry = registry(&[("eip155:1", "https://one.example/", 5), ("eip155:1", "https://two.example/", 5)]);
    let mut tracker = RateLimitTracker::new(30);
    let policy = FailoverPolicy { on_throttle: false, on_transport_error: true };
    let step = forwarding("p1", "eip155:1", b"{}", &registry, &mut tracker, policy);
    assert_eq!(step.call.selected_provider(), Some(0));
    let step = handler(step.call, GatewayEvent::ProviderReplied(ProviderReply::TimedOut), &registry, &mut tracker, 1001);
    assert_eq!(step.call.state, GatewayState::Forwarding);
    assert!(matches!(step.command, Command::Forward { provider: 1 }));
    assert!(step.metric.is_none());
    assert_eq!(step.call.outbound().unwrap().uri, "https://two.example/");
    let step = handler(step.call, reply(200, BLOCK_NUMBER_RESULT), &registry, &mut tracker, 1002);
    assert_eq!(step.call.state, GatewayState::Completed);

    let step = forwarding("p1", "eip155:1", b"{}", &registry, &mut tracker, NO_FAILOVER);
    let step = handler(step.call, GatewayEvent::ProviderReplied(ProviderReply::ConnectionFailed), &registry, &mut tracker, 1001);
    assert_eq!(step.call.state, GatewayState::Rejected);
}

#[test]
fn events_that_do_not_fit_are_ignored() {
    let registry = registry(&[("eip155:1", "https://mainnet.example/", 1)]);
    let mut tracker = RateLimitTracker::new(30);
    let fresh = call("p1", "eip155:1", b"{}", None, NO_FAILOVER);
    let step = handler(fresh, reply(403, ""), &registry, &mut tracker, 0);
    assert_eq!(step.call.state, GatewayState::ValidatingInput);
    assert!(matches!(step.command, Command::Wait));
    assert!(step.metric.is_none() && step.warning.is_none());
    assert_eq!(tracker.rejection_count(0, "p1"), 0);
    let step = handler(step.call, GatewayEvent::TenantResolved(TenantLookup::Allowed), &registry, &mut tracker, 0);
    assert_eq!(step.call.state, GatewayState::ValidatingInput);
    assert!(matches!(step.command, Command::Wait));
    let step = handler(step.call, GatewayEvent::Received, &registry, &mut tracker, 0);
    assert_eq!(step.call.state, GatewayState::ResolvingTenant);
    let step = handler(step.call, GatewayEvent::Received, &registry, &mut tracker, 0);
    assert_eq!(step.call.state, GatewayState::ResolvingTenant);
    assert!(matches!(step.command, Command::Wait));
}

#[test]
fn completed_call_ignores_everything() {
    let registry = registry(&[("eip155:1", "https://mainnet.example/", 1)]);
    let mut tracker = RateLimitTracker::new(30);
    let step = forwarding("p1", "eip155:1", b"{}", &registry, &mut tracker, FULL_FAILOVER);
    let step = handler(step.call, reply(200, BLOCK_NUMBER_RESULT), &registry, &mut tracker, 1001);
    assert_eq!(step.call.state, GatewayState::Completed);
    let step = handler(step.call, reply(403, ""), &registry, &mut tracker, 1002);
    assert_eq!(step.call.state, GatewayState::Completed);
    assert!(matches!(step.command, Command::Wait));
    assert!(step.metric.is_none());
    assert_eq!(tracker.rejection_count(0, "p1"), 0);
}

#[test]
fn new_call_starts_by_validating() {
    let fresh = call("p1", "EIP155:1", b"abc", None, NO_FAILOVER);
    assert_eq!(fresh.state, GatewayState::ValidatingInput);
    assert_eq!(fresh.query_params.project_id, "p1");
    assert_eq!(fresh.query_params.chain_id, "EIP155:1");
    assert_eq!(fresh.chain_id, "");
    assert_eq!(fresh.body, b"abc");
    assert_eq!(fresh.attempt, 0);
    assert!(fresh.candidates.is_empty());
    assert!(fresh.outbound().is_none());
    assert_eq!(fresh.selected_provider(), None);
}
