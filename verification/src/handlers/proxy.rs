//! The gateway's handling of one call, as a state machine.
//!
//! A call passes through `ValidatingInput`, `ResolvingTenant`,
//! `SelectingProvider` and `Forwarding` and ends in `Completed` or `Rejected`.
//! [`handler`] takes the call and one event and gives back the call in its
//! next state, what to record, and the one thing to do next. It never waits
//! and never sends: whoever drives it looks the tenant up, sends the request
//! of the current candidate and comes back with what happened.
//!
//! Within one step the metric is recorded before the analytics record, and
//! both before the command is carried out.

use vstd::prelude::*;
use crate::analytics::{MessageInfo, RpcRequest, copy_text};
use crate::chain::{lowercase, same_chain, to_lowercase};
use crate::error::{RpcError, status_of};
use crate::handlers::{
    ErrorResponse,
    RpcQueryParams,
    field_validation_error,
    handshake_error,
    rejection,
};
use crate::metrics::Metric;
use crate::providers::{
    OutboundRequest,
    ProviderKind,
    ProviderResponse,
    classification_of,
    classify,
    is_throttled,
    json_rpc_error_flag,
    throttle_signal,
};
use crate::registry::{ProviderRegistry, lemma_candidates_serve, lemma_selection_is_unique};
use crate::tracker::{RateLimitTracker, after_rejection};

verus! {

/// Where a call stands.
#[derive(Clone, Copy, Debug, PartialEq, Eq, Structural)]
pub enum GatewayState {
    ValidatingInput,
    ResolvingTenant,
    /// Passed through within the step that takes the tenant's admission: the
    /// registry is at hand, so a call never rests here.
    SelectingProvider,
    Forwarding,
    Completed,
    Rejected,
}

/// Whether a call moves on to its next candidate when the current one fails.
/// Both are decisions of whoever deploys the gateway.
#[derive(Clone, Copy, Debug, PartialEq, Eq, Structural)]
pub struct FailoverPolicy {
    /// Try the next candidate when the current one throttles.
    pub on_throttle: bool,
    /// Try the next candidate when the current one cannot be reached or does
    /// not answer in time.
    pub on_transport_error: bool,
}

/// One entry of a call's candidate list: the provider's place in the
/// registry, its kind and the request that forwards the call to it.
#[derive(Debug)]
pub struct Candidate {
    pub provider: usize,
    pub kind: ProviderKind,
    pub request: OutboundRequest,
}

/// One call and all that the gateway knows of it. It lives as long as the
/// call does.
#[derive(Debug)]
pub struct GatewayCall {
    pub state: GatewayState,
    pub query_params: RpcQueryParams,
    /// The chain identifier in normalized form, once the input is validated.
    pub chain_id: String,
    /// The caller's address.
    pub sender: Option<String>,
    /// The body as it came in; it is forwarded as it is.
    pub body: Vec<u8>,
    /// The body decoded as a JSON-RPC request, where it could be.
    pub rpc_request: Option<RpcRequest>,
    pub policy: FailoverPolicy,
    /// The candidates chosen for this call, the primary one first.
    pub candidates: Vec<Candidate>,
    /// The place in `candidates` of the one being tried.
    pub attempt: usize,
}

/// What the tenant lookup said.
#[derive(Debug)]
pub enum TenantLookup {
    Allowed,
    Denied { reason: String },
    Failed { reason: String },
}

/// What became of a forwarded request.
#[derive(Debug)]
pub enum ProviderReply {
    Response(ProviderResponse),
    ConnectionFailed,
    TimedOut,
}

/// What can happen to a call.
#[derive(Debug)]
pub enum GatewayEvent {
    /// The call came in.
    Received,
    TenantResolved(TenantLookup),
    ProviderReplied(ProviderReply),
}

/// The one thing to do after a step.
#[derive(Debug)]
pub enum Command {
    /// Nothing: the event did not fit the state of the call.
    Wait,
    /// Look the tenant up and come back with `TenantResolved`.
    ResolveTenant { project_id: String },
    /// Send the request of the current candidate, which is `provider`, and
    /// come back with `ProviderReplied`.
    Forward { provider: usize },
    /// Answer the caller with the backend's response as it is.
    Complete(ProviderResponse),
    /// Answer the caller with a rejection.
    Reject(ErrorResponse),
}

/// The result of one step.
#[derive(Debug)]
pub struct GatewayStep {
    pub call: GatewayCall,
    pub metric: Option<Metric>,
    pub analytics: Option<MessageInfo>,
    /// The error to log, where the step met one.
    pub warning: Option<RpcError>,
    pub command: Command,
}

/// The providers of a candidate list, in order.
pub open spec fn provider_ids(candidates: Seq<Candidate>) -> Seq<usize> {
    Seq::new(candidates.len(), |i: int| candidates[i].provider)
}

/// Whether a candidate is what the registry holds at its place: a provider of
/// the chain, with a request that posts `body` unchanged to the provider's
/// endpoint for the chain.
pub open spec fn is_candidate_of(
    registry: ProviderRegistry,
    candidate: Candidate,
    chain: Seq<char>,
    body: Seq<u8>,
) -> bool {
    let provider = registry.provider_at(candidate.provider as int);
    &&& registry.supports(candidate.provider as int, chain)
    &&& candidate.kind == provider.kind()
    &&& candidate.request.uri@ == provider.endpoints()[chain]
    &&& candidate.request.body@ == body
    &&& candidate.request.content_type@ == "application/json"@
}

/// Whether a step records nothing.
pub open spec fn is_quiet(step: GatewayStep) -> bool {
    step.metric is None && step.analytics is None && step.warning is None
}

/// A call without project is rejected at once: nothing is looked up and
/// nothing is recorded.
pub open spec fn rejects_input(pre: GatewayCall, step: GatewayStep) -> bool {
    &&& step.call == GatewayCall { state: GatewayState::Rejected, ..pre }
    &&& step.metric is None
    &&& step.analytics is None
    &&& step.warning == Some(RpcError::FieldValidation)
    &&& step.command matches Command::Reject(r) && r.says(
        status_of(RpcError::FieldValidation),
        "projectId"@,
        "No project id provided"@,
    )
}

/// A call with a project has its chain identifier normalized and goes on to
/// the tenant lookup.
pub open spec fn asks_tenant(pre: GatewayCall, step: GatewayStep) -> bool {
    &&& step.call == GatewayCall {
        state: GatewayState::ResolvingTenant,
        chain_id: step.call.chain_id,
        ..pre
    }
    &&& step.call.chain_id@ == lowercase(pre.query_params.chain_id@)
    &&& is_quiet(step)
    &&& step.command matches Command::ResolveTenant { project_id } && project_id@
        == pre.query_params.project_id@
}

/// A tenant that the lookup refused, or that it could not look up, is
/// rejected with the reason given, and the rejection is counted.
pub open spec fn rejects_tenant(pre: GatewayCall, reason: Seq<char>, step: GatewayStep) -> bool {
    &&& step.call == GatewayCall { state: GatewayState::Rejected, ..pre }
    &&& step.metric matches Some(Metric::RejectedProject)
    &&& step.analytics is None
    &&& step.warning == Some(RpcError::AccessError)
    &&& step.command matches Command::Reject(r) && r.says(
        status_of(RpcError::AccessError),
        "projectId"@,
        reason,
    )
}

/// A chain that no provider serves is rejected; no provider is asked and
/// nothing is counted.
pub open spec fn rejects_chain(pre: GatewayCall, step: GatewayStep) -> bool {
    &&& step.call == GatewayCall { state: GatewayState::Rejected, ..pre }
    &&& step.metric is None
    &&& step.analytics is None
    &&& step.warning == Some(RpcError::ChainNotFound)
    &&& step.command matches Command::Reject(r) && r.says(
        status_of(RpcError::ChainNotFound),
        "chainId"@,
        "We don't support the chainId you provided: "@ + pre.chain_id@,
    )
}

/// The analytics record of a call: one for a body that decoded as a request,
/// none otherwise. The record says nothing yet of where the caller lives.
pub open spec fn analytics_of(pre: GatewayCall, analytics: Option<MessageInfo>) -> bool {
    match pre.rpc_request {
        Some(request) => analytics matches Some(info) && info.records(
            pre.query_params,
            request,
            pre.sender,
            None,
            None,
        ),
        None => analytics is None,
    }
}

/// A call on a chain that is served gets its candidate list and goes to the
/// primary candidate. The call is counted for its chain then, whatever the
/// backend will answer.
pub open spec fn starts_forwarding(
    pre: GatewayCall,
    registry: ProviderRegistry,
    tracker: RateLimitTracker,
    now: u64,
    step: GatewayStep,
) -> bool {
    let post = step.call;
    &&& post == GatewayCall {
        state: GatewayState::Forwarding,
        candidates: post.candidates,
        attempt: 0,
        ..pre
    }
    &&& post.candidates.len() > 0
    &&& registry.is_selection(
        provider_ids(post.candidates@),
        tracker,
        pre.query_params.project_id@,
        now,
        pre.chain_id@,
    )
    &&& forall|i: int|
        0 <= i < post.candidates.len() ==> is_candidate_of(
            registry,
            #[trigger] post.candidates[i],
            pre.chain_id@,
            pre.body@,
        )
    &&& step.metric matches Some(m) && m.is_rpc_call(pre.chain_id@)
    &&& analytics_of(pre, step.analytics)
    &&& step.warning is None
    &&& step.command matches Command::Forward { provider } && provider
        == post.candidates[0].provider
}

impl GatewayCall {
    /// Whether the call waits for the reply of a candidate.
    pub open spec fn awaits_reply(&self) -> bool {
        self.state is Forwarding && self.attempt < self.candidates.len()
    }

    /// The candidate being tried.
    pub open spec fn current(&self) -> Candidate {
        self.candidates[self.attempt as int]
    }

    /// Whether the call may move on to another candidate.
    pub open spec fn may_fail_over(&self, allowed: bool) -> bool {
        allowed && self.attempt + 1 < self.candidates.len()
    }

    /// Whether the call has come to its end.
    pub open spec fn is_over(&self) -> bool {
        self.state is Completed || self.state is Rejected
    }
}

/// The call moves on to its next candidate.
pub open spec fn fails_over(pre: GatewayCall, step: GatewayStep) -> bool {
    &&& step.call == GatewayCall { attempt: (pre.attempt + 1) as usize, ..pre }
    &&& step.command matches Command::Forward { provider } && provider
        == pre.candidates[pre.attempt + 1].provider
}

/// The call ends with a rejection for the error given, laid to the field
/// `provider`.
pub open spec fn gives_up(
    pre: GatewayCall,
    step: GatewayStep,
    error: RpcError,
    message: Seq<char>,
) -> bool {
    &&& step.call == GatewayCall { state: GatewayState::Rejected, ..pre }
    &&& step.command matches Command::Reject(r) && r.says(status_of(error), "provider"@, message)
}

/// A response in which the candidate throttles: the rejection is counted for
/// the provider and the project, the pair's cooldown starts or is extended,
/// and the call moves on where the policy allows it and a candidate is left,
/// else it is rejected as throttled.
pub open spec fn handles_throttling(
    pre: GatewayCall,
    tracker: RateLimitTracker,
    now: u64,
    step: GatewayStep,
    tracker_after: RateLimitTracker,
) -> bool {
    let current = pre.current();
    let project = pre.query_params.project_id@;
    &&& tracker_after@ == tracker@.insert(
        (current.provider, project),
        after_rejection(tracker.cooldown_of(current.provider, project), now, tracker.window()),
    )
    &&& tracker_after.window() == tracker.window()
    &&& step.metric matches Some(Metric::RateLimitedCall { provider, kind, project_id })
        && provider == current.provider && kind == current.kind && project_id@ == project
    &&& step.analytics is None
    &&& step.warning == Some(RpcError::ProviderThrottled)
    &&& if pre.may_fail_over(pre.policy.on_throttle) {
        fails_over(pre, step)
    } else {
        gives_up(pre, step, RpcError::ProviderThrottled, "The provider is rate limited"@)
    }
}

/// Any other response ends the call: the caller gets the backend's status and
/// body as they are. What is unusual about the response is logged only.
pub open spec fn completes(pre: GatewayCall, response: ProviderResponse, step: GatewayStep) -> bool {
    &&& step.call == GatewayCall { state: GatewayState::Completed, ..pre }
    &&& step.metric is None
    &&& step.analytics is None
    &&& step.warning == classification_of(
        false,
        response.status,
        json_rpc_error_flag(response.body@),
    ).error_spec()
    &&& step.command == Command::Complete(response)
}

/// A request that got no response: the call moves on where the policy allows
/// it and a candidate is left, else it is rejected as a failure of the
/// backend, with a message that tells a timeout from a failed connection.
/// Nothing is counted.
pub open spec fn handles_transport_failure(
    pre: GatewayCall,
    timed_out: bool,
    step: GatewayStep,
) -> bool {
    &&& step.metric is None
    &&& step.analytics is None
    &&& step.warning == Some(RpcError::ProviderTransportError)
    &&& if pre.may_fail_over(pre.policy.on_transport_error) {
        fails_over(pre, step)
    } else if timed_out {
        gives_up(pre, step, RpcError::ProviderTransportError, "The provider did not answer in time"@)
    } else {
        gives_up(pre, step, RpcError::ProviderTransportError, "The provider could not be reached"@)
    }
}

/// An event that does not fit the state of the call changes nothing.
pub open spec fn ignores(pre: GatewayCall, step: GatewayStep) -> bool {
    step.call == pre && is_quiet(step) && step.command is Wait
}

/// What one step does: `step` and `tracker_after` are what [`handler`] makes
/// of the call `pre` and the event, with the registry, the tracker and the
/// time given.
pub open spec fn handled(
    pre: GatewayCall,
    event: GatewayEvent,
    registry: ProviderRegistry,
    tracker: RateLimitTracker,
    now: u64,
    step: GatewayStep,
    tracker_after: RateLimitTracker,
) -> bool {
    match event {
        GatewayEvent::Received => {
            &&& tracker_after == tracker
            &&& if !(pre.state is ValidatingInput) {
                ignores(pre, step)
            } else if pre.query_params.project_id@.len() == 0 {
                rejects_input(pre, step)
            } else {
                asks_tenant(pre, step)
            }
        },
        GatewayEvent::TenantResolved(lookup) => {
            &&& tracker_after == tracker
            &&& if !(pre.state is ResolvingTenant) {
                ignores(pre, step)
            } else {
                match lookup {
                    TenantLookup::Denied { reason } => rejects_tenant(pre, reason@, step),
                    TenantLookup::Failed { reason } => rejects_tenant(pre, reason@, step),
                    TenantLookup::Allowed => if registry.serves(pre.chain_id@) {
                        starts_forwarding(pre, registry, tracker, now, step)
                    } else {
                        rejects_chain(pre, step)
                    },
                }
            }
        },
        GatewayEvent::ProviderReplied(reply) => {
            if !pre.awaits_reply() {
                tracker_after == tracker && ignores(pre, step)
            } else {
                match reply {
                    ProviderReply::Response(response) => if throttle_signal(
                        pre.current().kind,
                        response.status,
                    ) {
                        handles_throttling(pre, tracker, now, step, tracker_after)
                    } else {
                        tracker_after == tracker && completes(pre, response, step)
                    },
                    ProviderReply::ConnectionFailed => tracker_after == tracker
                        && handles_transport_failure(pre, false, step),
                    ProviderReply::TimedOut => tracker_after == tracker
                        && handles_transport_failure(pre, true, step),
                }
            }
        },
    }
}

impl GatewayCall {
    /// A call that just came in.
    pub fn new(
        query_params: RpcQueryParams,
        sender: Option<String>,
        body: Vec<u8>,
        rpc_request: Option<RpcRequest>,
        policy: FailoverPolicy,
    ) -> (call: Self)
        ensures
            call.state is ValidatingInput,
            call.query_params == query_params,
            call.sender == sender,
            call.body == body,
            call.rpc_request == rpc_request,
            call.policy == policy,
            call.chain_id@.len() == 0,
            call.candidates@.len() == 0,
            call.attempt == 0,
    {
        GatewayCall {
            state: GatewayState::ValidatingInput,
            query_params,
            chain_id: String::new(),
            sender,
            body,
            rpc_request,
            policy,
            candidates: Vec::new(),
            attempt: 0,
        }
    }

    /// The request to send now: that of the current candidate, while the call
    /// waits for a reply.
    pub fn outbound(&self) -> (request: Option<&OutboundRequest>)
        ensures
            request is Some <==> self.awaits_reply(),
            request matches Some(r) ==> *r == self.current().request,
    {
        match self.state {
            GatewayState::Forwarding => {
                if self.attempt < self.candidates.len() {
                    Some(&self.candidates[self.attempt].request)
                } else {
                    None
                }
            },
            _ => None,
        }
    }

    /// The provider being tried, while the call waits for a reply.
    pub fn selected_provider(&self) -> (provider: Option<usize>)
        ensures
            provider is Some <==> self.awaits_reply(),
            provider matches Some(p) ==> p == self.current().provider,
    {
        match self.state {
            GatewayState::Forwarding => {
                if self.attempt < self.candidates.len() {
                    Some(self.candidates[self.attempt].provider)
                } else {
                    None
                }
            },
            _ => None,
        }
    }
}

fn ignore(call: GatewayCall) -> (step: GatewayStep)
    ensures
        ignores(call, step),
{
    GatewayStep { call, metric: None, analytics: None, warning: None, command: Command::Wait }
}

fn validate_input(call: GatewayCall) -> (step: GatewayStep)
    requires
        call.state is ValidatingInput,
    ensures
        call.query_params.project_id@.len() == 0 ==> rejects_input(call, step),
        call.query_params.project_id@.len() != 0 ==> asks_tenant(call, step),
{
    let mut call = call;
    if call.query_params.project_id.as_str().is_empty() {
        call.state = GatewayState::Rejected;
        let rejection = field_validation_error(
            "projectId",
            String::from_str("No project id provided"),
        );
        GatewayStep {
            call,
            metric: None,
            analytics: None,
            warning: Some(RpcError::FieldValidation),
            command: Command::Reject(rejection),
        }
    } else {
        call.chain_id = to_lowercase(call.query_params.chain_id.as_str());
        call.state = GatewayState::ResolvingTenant;
        let project_id = call.query_params.project_id.clone();
        GatewayStep {
            call,
            metric: None,
            analytics: None,
            warning: None,
            command: Command::ResolveTenant { project_id },
        }
    }
}

fn reject_tenant(call: GatewayCall, reason: String) -> (step: GatewayStep)
    ensures
        rejects_tenant(call, reason@, step),
{
    let mut call = call;
    call.state = GatewayState::Rejected;
    let rejection = handshake_error("projectId", reason);
    GatewayStep {
        call,
        metric: Some(Metric::RejectedProject),
        analytics: None,
        warning: Some(RpcError::AccessError),
        command: Command::Reject(rejection),
    }
}

/// The candidates for the providers of a selection, each with its request.
fn snapshot(registry: &ProviderRegistry, list: &Vec<usize>, chain: &str, body: &Vec<u8>) -> (candidates:
    Vec<Candidate>)
    requires
        forall|i: int| 0 <= i < list.len() ==> registry.supports(#[trigger] list[i] as int, chain@),
    ensures
        provider_ids(candidates@) == list@,
        forall|i: int|
            0 <= i < candidates.len() ==> is_candidate_of(
                *registry,
                #[trigger] candidates[i],
                chain@,
                body@,
            ),
{
    let mut candidates: Vec<Candidate> = Vec::new();
    let mut i: usize = 0;
    while i < list.len()
        invariant
            i <= list.len(),
            candidates.len() == i,
            forall|j: int| 0 <= j < list.len() ==> registry.supports(#[trigger] list[j] as int, chain@),
            forall|j: int| 0 <= j < i ==> (#[trigger] candidates[j]).provider == list[j],
            forall|j: int|
                0 <= j < i ==> is_candidate_of(*registry, #[trigger] candidates[j], chain@, body@),
        decreases list.len() - i,
    {
        let id = list[i];
        assert(registry.supports(list[i as int] as int, chain@));
        if let Some(provider) = registry.provider(id) {
            let kind = provider.provider_kind();
            if let Ok(request) = provider.proxy(chain, copy_bytes(body)) {
                candidates.push(Candidate { provider: id, kind, request });
            } else {
                // A selected provider serves the chain.
                proof {
                    assert(false);
                }
            }
        } else {
            // A selected provider is registered.
            proof {
                assert(false);
            }
        }
        i = i + 1;
    }
    assert(provider_ids(candidates@) =~= list@);
    candidates
}

/// A copy of a body.
fn copy_bytes(bytes: &Vec<u8>) -> (copy: Vec<u8>)
    ensures
        copy@ == bytes@,
{
    let mut copy: Vec<u8> = Vec::new();
    let mut i: usize = 0;
    while i < bytes.len()
        invariant
            i <= bytes.len(),
            copy@ == bytes@.take(i as int),
        decreases bytes.len() - i,
    {
        copy.push(bytes[i]);
        assert(bytes@.take(i + 1) =~= bytes@.take(i as int).push(bytes[i as int]));
        i = i + 1;
    }
    assert(bytes@.take(bytes.len() as int) =~= bytes@);
    copy
}

fn select_provider(
    call: GatewayCall,
    registry: &ProviderRegistry,
    tracker: &RateLimitTracker,
    now: u64,
) -> (step: GatewayStep)
    ensures
        registry.serves(call.chain_id@) ==> starts_forwarding(call, *registry, *tracker, now, step),
        !registry.serves(call.chain_id@) ==> rejects_chain(call, step),
{
    let mut call = call;
    call.state = GatewayState::SelectingProvider;
    let selection = registry.select_normalized(
        call.chain_id.as_str(),
        call.query_params.project_id.as_str(),
        tracker,
        now,
    );
    match selection {
        Err(_) => {
            call.state = GatewayState::Rejected;
            let message = String::from_str("We don't support the chainId you provided: ").concat(
                call.chain_id.as_str(),
            );
            let rejection = rejection(RpcError::ChainNotFound, "chainId", message);
            GatewayStep {
                call,
                metric: None,
                analytics: None,
                warning: Some(RpcError::ChainNotFound),
                command: Command::Reject(rejection),
            }
        },
        Ok(list) => {
            proof {
                assert forall|i: int| 0 <= i < list.len() implies registry.supports(
                    #[trigger] list[i] as int,
                    call.chain_id@,
                ) by {
                    lemma_candidates_serve(
                        *registry,
                        *tracker,
                        call.query_params.project_id@,
                        now,
                        call.chain_id@,
                        list@,
                        i,
                    );
                }
            }
            let candidates = snapshot(registry, &list, call.chain_id.as_str(), &call.body);
            let primary = list[0];
            let metric = Metric::RpcCall { chain_id: call.chain_id.clone() };
            let analytics = match &call.rpc_request {
                Some(request) => {
                    Some(
                        MessageInfo::new(
                            &call.query_params,
                            request,
                            copy_text(&call.sender),
                            None,
                            None,
                        ),
                    )
                },
                None => None,
            };
            call.candidates = candidates;
            call.attempt = 0;
            call.state = GatewayState::Forwarding;
            GatewayStep {
                call,
                metric: Some(metric),
                analytics,
                warning: None,
                command: Command::Forward { provider: primary },
            }
        },
    }
}

fn fail_over_or_give_up(call: GatewayCall, allowed: bool, rejection: ErrorResponse) -> (outcome: (
    GatewayCall,
    Command,
))
    requires
        call.awaits_reply(),
    ensures
        call.may_fail_over(allowed) ==> outcome.0 == (GatewayCall {
            attempt: (call.attempt + 1) as usize,
            ..call
        }) && (outcome.1 matches Command::Forward { provider } && provider
            == call.candidates[call.attempt + 1].provider),
        !call.may_fail_over(allowed) ==> outcome.0 == (GatewayCall {
            state: GatewayState::Rejected,
            ..call
        }) && outcome.1 == Command::Reject(rejection),
{
    let mut call = call;
    if allowed && call.attempt + 1 < call.candidates.len() {
        call.attempt = call.attempt + 1;
        let provider = call.candidates[call.attempt].provider;
        (call, Command::Forward { provider })
    } else {
        call.state = GatewayState::Rejected;
        (call, Command::Reject(rejection))
    }
}

fn provider_replied(call: GatewayCall, reply: ProviderReply, tracker: &mut RateLimitTracker, now: u64) -> (step:
    GatewayStep)
    requires
        call.awaits_reply(),
    ensures
        match reply {
            ProviderReply::Response(response) => if throttle_signal(
                call.current().kind,
                response.status,
            ) {
                handles_throttling(call, *old(tracker), now, step, *final(tracker))
            } else {
                *final(tracker) == *old(tracker) && completes(call, response, step)
            },
            ProviderReply::ConnectionFailed => *final(tracker) == *old(tracker)
                && handles_transport_failure(call, false, step),
            ProviderReply::TimedOut => *final(tracker) == *old(tracker)
                && handles_transport_failure(call, true, step),
        },
{
    match reply {
        ProviderReply::Response(response) => {
            let provider = call.candidates[call.attempt].provider;
            let kind = call.candidates[call.attempt].kind;
            let limited = is_throttled(kind, response.status);
            if limited {
                let metric = tracker.classify(
                    provider,
                    kind,
                    call.query_params.project_id.as_str(),
                    true,
                    now,
                );
                let rejection = rejection(
                    RpcError::ProviderThrottled,
                    "provider",
                    String::from_str("The provider is rate limited"),
                );
                let allowed = call.policy.on_throttle;
                let (call, command) = fail_over_or_give_up(call, allowed, rejection);
                GatewayStep {
                    call,
                    metric,
                    analytics: None,
                    warning: Some(RpcError::ProviderThrottled),
                    command,
                }
            } else {
                let mut call = call;
                let warning = classify(kind, &response).error();
                call.state = GatewayState::Completed;
                GatewayStep {
                    call,
                    metric: None,
                    analytics: None,
                    warning,
                    command: Command::Complete(response),
                }
            }
        },
        ProviderReply::ConnectionFailed => {
            let rejection = rejection(
                RpcError::ProviderTransportError,
                "provider",
                String::from_str("The provider could not be reached"),
            );
            let allowed = call.policy.on_transport_error;
            let (call, command) = fail_over_or_give_up(call, allowed, rejection);
            GatewayStep {
                call,
                metric: None,
                analytics: None,
                warning: Some(RpcError::ProviderTransportError),
                command,
            }
        },
        ProviderReply::TimedOut => {
            let rejection = rejection(
                RpcError::ProviderTransportError,
                "provider",
                String::from_str("The provider did not answer in time"),
            );
            let allowed = call.policy.on_transport_error;
            let (call, command) = fail_over_or_give_up(call, allowed, rejection);
            GatewayStep {
                call,
                metric: None,
                analytics: None,
                warning: Some(RpcError::ProviderTransportError),
                command,
            }
        },
    }
}

/// Takes one step of a call: from its state and one event to its next state,
/// what to record and what to do next.
///
/// `now` is the time of the step, in the unit of the tracker's window.
pub fn handler(
    call: GatewayCall,
    event: GatewayEvent,
    registry: &ProviderRegistry,
    tracker: &mut RateLimitTracker,
    now: u64,
) -> (step: GatewayStep)
    ensures
        handled(call, event, *registry, *old(tracker), now, step, *final(tracker)),
{
    match event {
        GatewayEvent::Received => match call.state {
            GatewayState::ValidatingInput => validate_input(call),
            _ => ignore(call),
        },
        GatewayEvent::TenantResolved(lookup) => match call.state {
            GatewayState::ResolvingTenant => match lookup {
                TenantLookup::Denied { reason } => reject_tenant(call, reason),
                TenantLookup::Failed { reason } => reject_tenant(call, reason),
                TenantLookup::Allowed => select_provider(call, registry, tracker, now),
            },
            _ => ignore(call),
        },
        GatewayEvent::ProviderReplied(reply) => {
            if call.outbound().is_some() {
                provider_replied(call, reply, tracker, now)
            } else {
                ignore(call)
            }
        },
    }
}

/// Whether two commands ask for the same thing.
pub open spec fn same_command(a: Command, b: Command) -> bool {
    match (a, b) {
        (Command::Wait, Command::Wait) => true,
        (Command::ResolveTenant { project_id: x }, Command::ResolveTenant { project_id: y }) => x@
            == y@,
        (Command::Forward { provider: x }, Command::Forward { provider: y }) => x == y,
        (Command::Complete(x), Command::Complete(y)) => x.status == y.status && x.body@ == y.body@,
        (Command::Reject(x), Command::Reject(y)) => x.says(y.status, y.field@, y.message@),
        _ => false,
    }
}

/// Whether two metrics count the same thing.
pub open spec fn same_metric(a: Option<Metric>, b: Option<Metric>) -> bool {
    match (a, b) {
        (None, None) => true,
        (Some(Metric::RejectedProject), Some(Metric::RejectedProject)) => true,
        (Some(Metric::RpcCall { chain_id: x }), Some(Metric::RpcCall { chain_id: y })) => x@ == y@,
        (
            Some(Metric::RateLimitedCall { provider: p, kind: k, project_id: x }),
            Some(Metric::RateLimitedCall { provider: q, kind: l, project_id: y }),
        ) => p == q && k == l && x@ == y@,
        _ => false,
    }
}

/// Whether two candidate lists name the same providers with the same
/// requests.
pub open spec fn same_candidates(a: Seq<Candidate>, b: Seq<Candidate>) -> bool {
    &&& a.len() == b.len()
    &&& forall|i: int|
        0 <= i < a.len() ==> (#[trigger] a[i]).provider == b[i].provider && a[i].kind == b[i].kind
            && a[i].request.uri@ == b[i].request.uri@ && a[i].request.body@ == b[i].request.body@
            && a[i].request.content_type@ == b[i].request.content_type@
}

/// A call without project is rejected before anything else happens: the
/// tenant is not looked up, no provider is selected, and no metric is
/// recorded, so none that names a chain or a provider.
pub proof fn lemma_missing_project_is_rejected_first(
    pre: GatewayCall,
    registry: ProviderRegistry,
    tracker: RateLimitTracker,
    now: u64,
    step: GatewayStep,
    tracker_after: RateLimitTracker,
)
    requires
        pre.state is ValidatingInput,
        pre.query_params.project_id@.len() == 0,
        handled(pre, GatewayEvent::Received, registry, tracker, now, step, tracker_after),
    ensures
        step.call.state is Rejected,
        step.command matches Command::Reject(r) && r.says(
            400,
            "projectId"@,
            "No project id provided"@,
        ),
        step.metric is None,
        step.analytics is None,
        step.call.candidates == pre.candidates,
        tracker_after == tracker,
{
}

/// A call on a chain that no provider serves is rejected as a fault of the
/// field `chainId`: no provider is asked, and nothing is counted.
pub proof fn lemma_unserved_chain_asks_no_provider(
    pre: GatewayCall,
    registry: ProviderRegistry,
    tracker: RateLimitTracker,
    now: u64,
    step: GatewayStep,
    tracker_after: RateLimitTracker,
)
    requires
        pre.state is ResolvingTenant,
        !registry.serves(pre.chain_id@),
        handled(
            pre,
            GatewayEvent::TenantResolved(TenantLookup::Allowed),
            registry,
            tracker,
            now,
            step,
            tracker_after,
        ),
    ensures
        step.call.state is Rejected,
        step.warning == Some(RpcError::ChainNotFound),
        step.command matches Command::Reject(r) && r.status == 400 && r.field@ == "chainId"@,
        !step.call.awaits_reply(),
        step.metric is None,
        tracker_after == tracker,
{
}

/// A call that is over stays over: whatever happens, nothing is recorded and
/// nothing is asked for.
pub proof fn lemma_finished_call_is_inert(
    pre: GatewayCall,
    event: GatewayEvent,
    registry: ProviderRegistry,
    tracker: RateLimitTracker,
    now: u64,
    step: GatewayStep,
    tracker_after: RateLimitTracker,
)
    requires
        pre.is_over(),
        handled(pre, event, registry, tracker, now, step, tracker_after),
    ensures
        step.call == pre,
        step.command is Wait,
        is_quiet(step),
        tracker_after == tracker,
{
}

/// Where a call has one candidate only and that one throttles, the call is
/// rejected as throttled and the throttling is counted once for the provider
/// and the project: in this step, and in none that may follow.
pub proof fn lemma_sole_provider_throttled(
    pre: GatewayCall,
    response: ProviderResponse,
    registry: ProviderRegistry,
    tracker: RateLimitTracker,
    now: u64,
    step: GatewayStep,
    tracker_after: RateLimitTracker,
    later_event: GatewayEvent,
    later: u64,
    later_step: GatewayStep,
    tracker_later: RateLimitTracker,
)
    requires
        pre.awaits_reply(),
        pre.candidates.len() == 1,
        throttle_signal(pre.current().kind, response.status),
        handled(
            pre,
            GatewayEvent::ProviderReplied(ProviderReply::Response(response)),
            registry,
            tracker,
            now,
            step,
            tracker_after,
        ),
        handled(step.call, later_event, registry, tracker_after, later, later_step, tracker_later),
    ensures
        step.call.state is Rejected,
        step.command matches Command::Reject(r) && r.status == 429,
        step.metric matches Some(m) && m.is_rate_limited_call(
            pre.current().provider,
            pre.query_params.project_id@,
        ),
        tracker_after.cooldown_of(
            pre.current().provider,
            pre.query_params.project_id@,
        ).rejected_until >= tracker.cooldown_of(
            pre.current().provider,
            pre.query_params.project_id@,
        ).rejected_until,
        later_step.metric is None,
        later_step.command is Wait,
        tracker_later == tracker_after,
{
}

/// The body reaches the provider byte for byte, whether it decoded as a
/// JSON-RPC request or not: every candidate's request carries the body of the
/// call, and an analytics record is made exactly for a body that decoded.
pub proof fn lemma_body_is_forwarded_unchanged(
    pre: GatewayCall,
    registry: ProviderRegistry,
    tracker: RateLimitTracker,
    now: u64,
    step: GatewayStep,
    tracker_after: RateLimitTracker,
)
    requires
        pre.state is ResolvingTenant,
        registry.serves(pre.chain_id@),
        handled(
            pre,
            GatewayEvent::TenantResolved(TenantLookup::Allowed),
            registry,
            tracker,
            now,
            step,
            tracker_after,
        ),
    ensures
        step.call.awaits_reply(),
        step.call.current().request.body@ == pre.body@,
        forall|i: int|
            0 <= i < step.call.candidates.len() ==> (#[trigger] step.call.candidates[i]).request.body@
                == pre.body@,
        step.analytics is Some <==> pre.rpc_request is Some,
        step.metric matches Some(m) && m.is_rpc_call(pre.chain_id@),
{
    assert(is_candidate_of(registry, step.call.candidates[0], pre.chain_id@, pre.body@));
}

/// Whether two calls are routed alike: they stand in the same state, are for
/// the same project, the same chain but for its case and the same body, under
/// the same policy, and hold the same candidates.
pub open spec fn same_route(one: GatewayCall, other: GatewayCall) -> bool {
    &&& one.state == other.state
    &&& one.query_params.project_id@ == other.query_params.project_id@
    &&& same_chain(one.query_params.chain_id@, other.query_params.chain_id@)
    &&& one.chain_id@ == other.chain_id@
    &&& one.body@ == other.body@
    &&& one.policy == other.policy
    &&& one.attempt == other.attempt
    &&& same_candidates(one.candidates@, other.candidates@)
}

/// Routing is decided by the route alone: two calls that are routed alike
/// take the same step on the same event. They ask for the same thing, count
/// the same metric, log the same error, leave the tracker in the same state
/// and are routed alike afterwards. What differs between them, the case of
/// the chain identifier or what was decoded of the body, decides nothing.
pub proof fn lemma_same_route_same_outcome(
    one: GatewayCall,
    other: GatewayCall,
    event: GatewayEvent,
    registry: ProviderRegistry,
    tracker: RateLimitTracker,
    now: u64,
    step_one: GatewayStep,
    tracker_one: RateLimitTracker,
    step_other: GatewayStep,
    tracker_other: RateLimitTracker,
)
    requires
        same_route(one, other),
        handled(one, event, registry, tracker, now, step_one, tracker_one),
        handled(other, event, registry, tracker, now, step_other, tracker_other),
    ensures
        same_route(step_one.call, step_other.call),
        same_command(step_one.command, step_other.command),
        same_metric(step_one.metric, step_other.metric),
        step_one.warning == step_other.warning,
        tracker_one@ == tracker_other@,
        tracker_one.window() == tracker_other.window(),
{
    match event {
        GatewayEvent::TenantResolved(TenantLookup::Allowed) => {
            if one.state is ResolvingTenant && registry.serves(one.chain_id@) {
                let a = step_one.call.candidates@;
                let b = step_other.call.candidates@;
                lemma_selection_is_unique(
                    registry,
                    tracker,
                    one.query_params.project_id@,
                    now,
                    one.chain_id@,
                    provider_ids(a),
                    provider_ids(b),
                );
                assert(a.len() == b.len()) by {
                    assert(provider_ids(a).len() == provider_ids(b).len());
                }
                assert forall|i: int| 0 <= i < a.len() implies (#[trigger] a[i]).provider
                    == b[i].provider && a[i].kind == b[i].kind && a[i].request.uri@
                    == b[i].request.uri@ && a[i].request.body@ == b[i].request.body@
                    && a[i].request.content_type@ == b[i].request.content_type@ by {
                    assert(provider_ids(a)[i] == provider_ids(b)[i]);
                    assert(is_candidate_of(registry, a[i], one.chain_id@, one.body@));
                    assert(is_candidate_of(registry, b[i], one.chain_id@, one.body@));
                }
            }
        },
        GatewayEvent::ProviderReplied(reply) => {
            if one.awaits_reply() {
                assert(one.candidates@[one.attempt as int].provider
                    == other.candidates@[other.attempt as int].provider);
                if one.attempt + 1 < one.candidates.len() {
                    assert(one.candidates@[one.attempt + 1].provider
                        == other.candidates@[other.attempt + 1].provider);
                }
            }
        },
        _ => {},
    }
}

/// Chain identifiers that differ in case only route identically: two calls
/// that are alike but for the case of the chain identifier take the same step
/// on the same event.
pub proof fn lemma_routing_ignores_case(
    one: GatewayCall,
    other: GatewayCall,
    event: GatewayEvent,
    registry: ProviderRegistry,
    tracker: RateLimitTracker,
    now: u64,
    step_one: GatewayStep,
    tracker_one: RateLimitTracker,
    step_other: GatewayStep,
    tracker_other: RateLimitTracker,
)
    requires
        one.state is ValidatingInput,
        same_chain(one.query_params.chain_id@, other.query_params.chain_id@),
        other == (GatewayCall {
            query_params: RpcQueryParams {
                chain_id: other.query_params.chain_id,
                ..one.query_params
            },
            ..one
        }),
        handled(one, event, registry, tracker, now, step_one, tracker_one),
        handled(other, event, registry, tracker, now, step_other, tracker_other),
    ensures
        step_one.call.chain_id@ == step_other.call.chain_id@,
        same_route(step_one.call, step_other.call),
        same_command(step_one.command, step_other.command),
        same_metric(step_one.metric, step_other.metric),
{
    assert(same_candidates(one.candidates@, other.candidates@));
    lemma_same_route_same_outcome(
        one,
        other,
        event,
        registry,
        tracker,
        now,
        step_one,
        tracker_one,
        step_other,
        tracker_other,
    );
}

/// Analytics never decide anything: two calls that differ only in what was
/// decoded of the body take the same step on the same event.
pub proof fn lemma_analytics_do_not_affect_outcome(
    one: GatewayCall,
    other: GatewayCall,
    event: GatewayEvent,
    registry: ProviderRegistry,
    tracker: RateLimitTracker,
    now: u64,
    step_one: GatewayStep,
    tracker_one: RateLimitTracker,
    step_other: GatewayStep,
    tracker_other: RateLimitTracker,
)
    requires
        other == (GatewayCall { rpc_request: other.rpc_request, ..one }),
        handled(one, event, registry, tracker, now, step_one, tracker_one),
        handled(other, event, registry, tracker, now, step_other, tracker_other),
    ensures
        same_route(step_one.call, step_other.call),
        same_command(step_one.command, step_other.command),
        same_metric(step_one.metric, step_other.metric),
        step_one.warning == step_other.warning,
        tracker_one@ == tracker_other@,
{
    assert(same_candidates(one.candidates@, other.candidates@));
    lemma_same_route_same_outcome(
        one,
        other,
        event,
        registry,
        tracker,
        now,
        step_one,
        tracker_one,
        step_other,
        tracker_other,
    );
}

} // verus!
