//! The Binance provider: one endpoint per chain, plain JSON-RPC over `POST`.

use vstd::prelude::*;
use crate::chain::{lowercase, to_lowercase};
use crate::error::RpcError;
use crate::providers::{
    Classification,
    OutboundRequest,
    ProviderKind,
    ProviderResponse,
    classification_of,
    classify,
    decode_error_flag,
    error_under_success,
    is_error_under_success,
    is_throttled,
    json_rpc_error_flag,
    throttle_signal,
};

verus! {

/// The configuration of a Binance provider: pairs of a chain identifier, in
/// any case, and the endpoint that serves it.
#[derive(Clone, Debug)]
pub struct BinanceConfig {
    pub supported_chains: Vec<(String, String)>,
}

/// What `proxy` hands back once the backend has answered: the answer as it
/// came, and whether it is a JSON-RPC error under a success status.
#[derive(Debug)]
pub struct ProxyOutcome {
    pub response: ProviderResponse,
    pub strange: bool,
}

/// A provider for Binance's public endpoints. It is fixed once built.
#[derive(Debug)]
pub struct BinanceProvider {
    supported_chains: Vec<(String, String)>,
}

/// Whether entry `i` of a configuration is for the chain with normalized
/// identifier `k`.
pub open spec fn configures(config: Seq<(String, String)>, i: int, k: Seq<char>) -> bool {
    0 <= i < config.len() && lowercase(config[i].0@) == k
}

/// Whether entry `i` is the first one for the chain `k`.
pub open spec fn is_first(config: Seq<(String, String)>, i: int, k: Seq<char>) -> bool {
    configures(config, i, k) && forall|j: int| 0 <= j < i ==> !configures(config, j, k)
}

/// The first entry of a configuration for the chain `k`.
pub open spec fn first_entry(config: Seq<(String, String)>, k: Seq<char>) -> int {
    choose|i: int| is_first(config, i, k)
}

/// What a configuration says: each chain identifier is normalized, and where a
/// chain is configured more than once, its first entry counts.
pub open spec fn configured_endpoints(config: Seq<(String, String)>) -> Map<Seq<char>, Seq<char>> {
    Map::new(
        |k: Seq<char>| exists|i: int| configures(config, i, k),
        |k: Seq<char>| config[first_entry(config, k)].1@,
    )
}

spec fn holds(table: Seq<(String, String)>, i: int, k: Seq<char>) -> bool {
    0 <= i < table.len() && table[i].0@ == k
}

spec fn in_table(table: Seq<(String, String)>, k: Seq<char>) -> bool {
    exists|i: int| holds(table, i, k)
}

spec fn configured_before(config: Seq<(String, String)>, n: int, k: Seq<char>) -> bool {
    exists|j: int| 0 <= j < n && configures(config, j, k)
}

spec fn sourced(config: Seq<(String, String)>, n: int, entry: (String, String)) -> bool {
    exists|j: int| 0 <= j < n && is_first(config, j, entry.0@) && config[j].1@ == entry.1@
}

spec fn distinct_keys(table: Seq<(String, String)>) -> bool {
    forall|i: int, j: int| 0 <= i < j < table.len() ==> table[i].0@ != table[j].0@
}

spec fn table_map(table: Seq<(String, String)>) -> Map<Seq<char>, Seq<char>> {
    Map::new(
        |k: Seq<char>| exists|i: int| holds(table, i, k),
        |k: Seq<char>| table[choose|i: int| holds(table, i, k)].1@,
    )
}

proof fn lemma_table_entry(table: Seq<(String, String)>, i: int)
    requires
        distinct_keys(table),
        0 <= i < table.len(),
    ensures
        table_map(table).contains_key(table[i].0@),
        table_map(table)[table[i].0@] == table[i].1@,
{
    let k = table[i].0@;
    assert(holds(table, i, k));
    let c = choose|c: int| holds(table, c, k);
    assert(holds(table, c, k));
    assert(c == i);
}

impl View for BinanceProvider {
    type V = Map<Seq<char>, Seq<char>>;

    /// The endpoint of each chain served, by normalized chain identifier.
    closed spec fn view(&self) -> Map<Seq<char>, Seq<char>> {
        table_map(self.supported_chains@)
    }
}

impl BinanceProvider {
    #[verifier::type_invariant]
    spec fn inv(&self) -> bool {
        distinct_keys(self.supported_chains@)
    }

    /// Builds the provider from its configuration.
    pub fn new(provider_config: &BinanceConfig) -> (provider: Self)
        ensures
            provider@ == configured_endpoints(provider_config.supported_chains@),
    {
        let config = &provider_config.supported_chains;
        let mut table: Vec<(String, String)> = Vec::new();
        let mut i: usize = 0;
        assert forall|k: Seq<char>| #[trigger] in_table(table@, k) <==> configured_before(
            config@,
            0,
            k,
        ) by {
            if in_table(table@, k) {
                let t = choose|t: int| holds(table@, t, k);
            }
        }
        while i < config.len()
            invariant
                i <= config.len(),
                distinct_keys(table@),
                forall|k: Seq<char>| #[trigger]
                    in_table(table@, k) <==> configured_before(config@, i as int, k),
                forall|t: int|
                    0 <= t < table.len() ==> sourced(config@, i as int, #[trigger] table[t]),
            decreases config.len() - i,
        {
            let key = to_lowercase(config[i].0.as_str());
            let ghost before = table@;
            let ghost k0 = key@;
            assert(configures(config@, i as int, k0));
            if find(&table, &key).is_none() {
                let url = config[i].1.clone();
                table.push((key, url));
                proof {
                    let last = before.len() as int;
                    assert(holds(table@, last, k0));
                    assert(!in_table(before, k0));
                    assert forall|l: int| 0 <= l < i implies !configures(config@, l, k0) by {
                        if configures(config@, l, k0) {
                            assert(configured_before(config@, i as int, k0));
                        }
                    }
                    assert(is_first(config@, i as int, k0));
                    assert forall|k: Seq<char>| #[trigger]
                        in_table(table@, k) <==> configured_before(config@, i + 1, k) by {
                        if in_table(table@, k) {
                            let t = choose|t: int| holds(table@, t, k);
                            if t < last {
                                assert(holds(before, t, k));
                                assert(in_table(before, k));
                                let j = choose|j: int| 0 <= j < i && configures(config@, j, k);
                                assert(0 <= j < i + 1 && configures(config@, j, k));
                            } else {
                                assert(k == k0);
                            }
                        }
                        if configured_before(config@, i + 1, k) {
                            let j = choose|j: int| 0 <= j < i + 1 && configures(config@, j, k);
                            if j < i {
                                assert(configured_before(config@, i as int, k));
                                assert(in_table(before, k));
                                let t = choose|t: int| holds(before, t, k);
                                assert(holds(table@, t, k));
                            } else {
                                assert(holds(table@, last, k));
                            }
                        }
                    }
                    assert forall|t: int| 0 <= t < table.len() implies sourced(
                        config@,
                        i + 1,
                        #[trigger] table[t],
                    ) by {
                        if t < last {
                            assert(table[t] == before[t]);
                            assert(sourced(config@, i as int, before[t]));
                            let j = choose|j: int|
                                0 <= j < i && is_first(config@, j, before[t].0@) && config[j].1@
                                    == before[t].1@;
                            assert(0 <= j < i + 1 && is_first(config@, j, table[t].0@));
                        } else {
                            assert(0 <= i < i + 1 && is_first(config@, i as int, table[t].0@));
                        }
                    }
                }
            } else {
                proof {
                    assert(in_table(table@, k0));
                    assert forall|k: Seq<char>| #[trigger]
                        in_table(table@, k) <==> configured_before(config@, i + 1, k) by {
                        if in_table(table@, k) {
                            let j = choose|j: int| 0 <= j < i && configures(config@, j, k);
                            assert(0 <= j < i + 1 && configures(config@, j, k));
                        }
                        if configured_before(config@, i + 1, k) {
                            let j = choose|j: int| 0 <= j < i + 1 && configures(config@, j, k);
                            if j < i {
                                assert(configured_before(config@, i as int, k));
                            } else {
                                assert(k == k0);
                            }
                        }
                    }
                    assert forall|t: int| 0 <= t < table.len() implies sourced(
                        config@,
                        i + 1,
                        #[trigger] table[t],
                    ) by {
                        assert(sourced(config@, i as int, table[t]));
                        let j = choose|j: int|
                            0 <= j < i && is_first(config@, j, table[t].0@) && config[j].1@
                                == table[t].1@;
                        assert(0 <= j < i + 1 && is_first(config@, j, table[t].0@));
                    }
                }
            }
            i = i + 1;
        }
        proof {
            let m = table_map(table@);
            let c = configured_endpoints(config@);
            assert forall|k: Seq<char>| m.contains_key(k) <==> c.contains_key(k) by {
                if m.contains_key(k) {
                    assert(in_table(table@, k));
                    let j = choose|j: int| 0 <= j < i && configures(config@, j, k);
                    assert(configures(config@, j, k));
                }
                if c.contains_key(k) {
                    let j = choose|j: int| configures(config@, j, k);
                    assert(0 <= j < i && configures(config@, j, k));
                    assert(configured_before(config@, i as int, k));
                    assert(in_table(table@, k));
                }
            }
            assert forall|k: Seq<char>| m.contains_key(k) implies m[k] == c[k] by {
                let t = choose|t: int| holds(table@, t, k);
                assert(holds(table@, t, k));
                lemma_table_entry(table@, t);
                assert(sourced(config@, i as int, table[t]));
                let j = choose|j: int|
                    0 <= j < i && is_first(config@, j, table[t].0@) && config[j].1@
                        == table[t].1@;
                let f = first_entry(config@, k);
                assert(is_first(config@, j, k));
                assert(is_first(config@, f, k));
                assert(f == j);
            }
            assert(m =~= c);
        }
        BinanceProvider { supported_chains: table }
    }

    /// Whether this provider serves the chain. `chain_id` is compared as it is
    /// given, with the normalized identifiers that the provider holds.
    pub fn supports_caip_chainid(&self, chain_id: &str) -> (supported: bool)
        ensures
            supported == self@.contains_key(chain_id@),
    {
        let key = chain_id.to_owned();
        find(&self.supported_chains, &key).is_some()
    }

    /// The chains that this provider serves, each once.
    pub fn supported_caip_chains(&self) -> (chains: Vec<String>)
        ensures
            forall|k: Seq<char>|
                self@.contains_key(k) <==> exists|i: int|
                    0 <= i < chains.len() && #[trigger] chains[i]@ == k,
            forall|i: int, j: int|
                0 <= i < j < chains.len() ==> #[trigger] chains[i]@ != #[trigger] chains[j]@,
    {
        proof {
            use_type_invariant(self);
        }
        let mut chains: Vec<String> = Vec::new();
        let mut i: usize = 0;
        while i < self.supported_chains.len()
            invariant
                i <= self.supported_chains.len(),
                chains.len() == i,
                forall|j: int| 0 <= j < i ==> #[trigger] chains[j]@ == self.supported_chains[j].0@,
            decreases self.supported_chains.len() - i,
        {
            chains.push(self.supported_chains[i].0.clone());
            i = i + 1;
        }
        proof {
            let table = self.supported_chains@;
            assert forall|k: Seq<char>|
                self@.contains_key(k) <==> exists|i: int|
                    0 <= i < chains.len() && #[trigger] chains[i]@ == k by {
                if self@.contains_key(k) {
                    let t = choose|t: int| holds(table, t, k);
                    assert(chains[t]@ == k);
                }
                if exists|i: int| 0 <= i < chains.len() && #[trigger] chains[i]@ == k {
                    let t = choose|i: int| 0 <= i < chains.len() && #[trigger] chains[i]@ == k;
                    assert(holds(table, t, k));
                }
            }
        }
        chains
    }

    pub fn provider_kind(&self) -> (kind: ProviderKind)
        ensures
            kind == ProviderKind::Binance,
    {
        ProviderKind::Binance
    }

    /// Binance answers `403 Forbidden` when it throttles.
    pub fn is_rate_limited(&self, response: &ProviderResponse) -> (limited: bool)
        ensures
            limited == throttle_signal(ProviderKind::Binance, response.status),
            limited == (response.status == 403),
    {
        is_throttled(ProviderKind::Binance, response.status)
    }

    /// What is handed back for an answer of the backend: its status and body
    /// untouched. An answer that decodes as a JSON-RPC response with an error
    /// member, under a success status, is marked as strange and handed back
    /// all the same.
    pub fn answer(&self, status: u16, body: Vec<u8>) -> (outcome: ProxyOutcome)
        ensures
            outcome.response.status == status,
            outcome.response.body == body,
            outcome.strange == is_error_under_success(status, json_rpc_error_flag(body@)),
    {
        let flag = decode_error_flag(body.as_slice());
        let strange = error_under_success(status, flag);
        ProxyOutcome { response: ProviderResponse { status, body }, strange }
    }

    /// Judges a response of Binance's backend.
    pub fn classify(&self, response: &ProviderResponse) -> (class: Classification)
        ensures
            class == classification_of(
                throttle_signal(ProviderKind::Binance, response.status),
                response.status,
                json_rpc_error_flag(response.body@),
            ),
    {
        classify(ProviderKind::Binance, response)
    }

    /// The request that forwards `body` to the endpoint of `chain_id`: the body
    /// as it came, declared as JSON. A chain that this provider does not serve
    /// gives `ChainNotFound`.
    pub fn proxy(&self, chain_id: &str, body: Vec<u8>) -> (request: Result<
        OutboundRequest,
        RpcError,
    >)
        ensures
            request is Ok <==> self@.contains_key(chain_id@),
            request matches Ok(r) ==> r.uri@ == self@[chain_id@] && r.body@ == body@
                && r.content_type@ == "application/json"@,
            request matches Err(e) ==> e == RpcError::ChainNotFound,
    {
        proof {
            use_type_invariant(self);
        }
        let key = chain_id.to_owned();
        match find(&self.supported_chains, &key) {
            Some(i) => {
                proof {
                    lemma_table_entry(self.supported_chains@, i as int);
                }
                Ok(
                    OutboundRequest {
                        uri: self.supported_chains[i].1.clone(),
                        content_type: String::from_str("application/json"),
                        body,
                    },
                )
            },
            None => Err(RpcError::ChainNotFound),
        }
    }
}

/// The place of `key` in a table, if it has one.
fn find(table: &Vec<(String, String)>, key: &String) -> (found: Option<usize>)
    ensures
        found matches Some(i) ==> holds(table@, i as int, key@),
        found is None ==> forall|i: int| !holds(table@, i, key@),
        found is Some <==> table_map(table@).contains_key(key@),
{
    let mut i: usize = 0;
    while i < table.len()
        invariant
            i <= table.len(),
            forall|j: int| 0 <= j < i ==> !holds(table@, j, key@),
        decreases table.len() - i,
    {
        if table[i].0 == *key {
            assert(holds(table@, i as int, key@));
            return Some(i);
        }
        i = i + 1;
    }
    None
}

} // verus!
