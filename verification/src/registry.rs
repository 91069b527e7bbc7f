//! The provider registry and its selection policy.
//!
//! The registry holds the providers in the order in which they were
//! registered; a provider's place in that order is its identity. For one call
//! the policy turns a chain into the list of candidates: the providers that
//! serve the chain and are not in cooldown for the tenant, the one with the
//! highest priority first and, among equal priorities, the one registered
//! first. The head of the list is the primary choice and the rest is the
//! failover sequence. Where every provider of the chain is in cooldown, the
//! list holds the single provider whose cooldown ends first, so that a chain
//! never becomes unavailable through cooldowns alone.

use vstd::prelude::*;
use crate::chain::{lowercase, same_chain, to_lowercase};
use crate::error::RpcError;
use crate::providers::Provider;
use crate::tracker::RateLimitTracker;

verus! {

#[derive(Debug)]
struct Registered {
    provider: Provider,
    priority: u32,
}

/// The providers of a gateway, in the order of their registration.
#[derive(Debug)]
pub struct ProviderRegistry {
    providers: Vec<Registered>,
}

impl ProviderRegistry {
    /// The number of providers registered.
    pub closed spec fn count(&self) -> nat {
        self.providers.len() as nat
    }

    /// The provider registered at place `id`.
    pub closed spec fn provider_at(&self, id: int) -> Provider {
        self.providers[id].provider
    }

    /// The priority of the provider at place `id`; more is preferred.
    pub closed spec fn priority_at(&self, id: int) -> u32 {
        self.providers[id].priority
    }

    /// Whether the provider at place `id` serves the normalized chain.
    pub open spec fn supports(&self, id: int, chain: Seq<char>) -> bool {
        0 <= id < self.count() && self.provider_at(id).endpoints().contains_key(chain)
    }

    /// Whether any provider serves the normalized chain.
    pub open spec fn serves(&self, chain: Seq<char>) -> bool {
        exists|id: int| self.supports(id, chain)
    }

    /// The static order of two providers: `a` comes before `b` where its
    /// priority is higher, or equal and `a` was registered first.
    pub open spec fn precedes(&self, a: int, b: int) -> bool {
        self.priority_at(a) > self.priority_at(b) || (self.priority_at(a) == self.priority_at(b)
            && a < b)
    }

    /// Whether the provider at place `id` serves the chain and is not in
    /// cooldown for the tenant at time `now`.
    pub open spec fn eligible(
        &self,
        tracker: RateLimitTracker,
        tenant: Seq<char>,
        now: u64,
        chain: Seq<char>,
        id: int,
    ) -> bool {
        self.supports(id, chain) && !tracker.in_cooldown(id as usize, tenant, now)
    }

    /// Whether any provider is eligible.
    pub open spec fn any_eligible(
        &self,
        tracker: RateLimitTracker,
        tenant: Seq<char>,
        now: u64,
        chain: Seq<char>,
    ) -> bool {
        exists|id: int| self.eligible(tracker, tenant, now, chain, id)
    }

    /// Whether `list` holds exactly the eligible providers, in static order.
    pub open spec fn is_ranking(
        &self,
        list: Seq<usize>,
        tracker: RateLimitTracker,
        tenant: Seq<char>,
        now: u64,
        chain: Seq<char>,
    ) -> bool {
        &&& forall|i: int|
            0 <= i < list.len() ==> self.eligible(tracker, tenant, now, chain, #[trigger] list[i] as int)
        &&& forall|id: int| #[trigger]
            self.eligible(tracker, tenant, now, chain, id) ==> exists|i: int|
                0 <= i < list.len() && list[i] == id
        &&& forall|i: int, j: int|
            0 <= i < j < list.len() ==> self.precedes(
                #[trigger] list[i] as int,
                #[trigger] list[j] as int,
            )
    }

    /// The order in which cooldowns end for a tenant: `a` comes before `b`
    /// where its cooldown ends earlier, or at the same time and `a` precedes
    /// `b` in the static order.
    pub open spec fn cools_before(
        &self,
        tracker: RateLimitTracker,
        tenant: Seq<char>,
        a: int,
        b: int,
    ) -> bool {
        let end_a = tracker.cooldown_of(a as usize, tenant).rejected_until;
        let end_b = tracker.cooldown_of(b as usize, tenant).rejected_until;
        end_a < end_b || (end_a == end_b && self.precedes(a, b))
    }

    /// Whether the provider at place `id` is the one to fall back on: it
    /// serves the chain, and its cooldown ends before that of every other
    /// provider of the chain.
    pub open spec fn is_fallback(
        &self,
        id: int,
        tracker: RateLimitTracker,
        tenant: Seq<char>,
        chain: Seq<char>,
    ) -> bool {
        &&& self.supports(id, chain)
        &&& forall|other: int| #[trigger]
            self.supports(other, chain) && other != id ==> self.cools_before(
                tracker,
                tenant,
                id,
                other,
            )
    }

    /// Whether `list` is the candidate list for a call of `tenant` on the
    /// normalized chain at time `now`.
    pub open spec fn is_selection(
        &self,
        list: Seq<usize>,
        tracker: RateLimitTracker,
        tenant: Seq<char>,
        now: u64,
        chain: Seq<char>,
    ) -> bool {
        if self.any_eligible(tracker, tenant, now, chain) {
            self.is_ranking(list, tracker, tenant, now, chain)
        } else {
            list.len() == 1 && self.is_fallback(list[0] as int, tracker, tenant, chain)
        }
    }

    /// A registry without providers.
    pub fn new() -> (registry: Self)
        ensures
            registry.count() == 0,
    {
        ProviderRegistry { providers: Vec::new() }
    }

    /// Registers a provider under a priority and returns its place. The
    /// providers registered before keep their places and priorities.
    pub fn register(&mut self, provider: Provider, priority: u32) -> (id: usize)
        ensures
            id == old(self).count(),
            final(self).count() == old(self).count() + 1,
            final(self).provider_at(id as int) == provider,
            final(self).priority_at(id as int) == priority,
            forall|other: int|
                0 <= other < old(self).count() ==> #[trigger] final(self).provider_at(other) == old(
                    self,
                ).provider_at(other) && final(self).priority_at(other) == old(self).priority_at(
                    other,
                ),
    {
        let id = self.providers.len();
        self.providers.push(Registered { provider, priority });
        id
    }

    /// The number of providers registered.
    pub fn len(&self) -> (count: usize)
        ensures
            count == self.count(),
    {
        self.providers.len()
    }

    /// The provider at place `id`, if there is one.
    pub fn provider(&self, id: usize) -> (provider: Option<&Provider>)
        ensures
            provider is Some <==> id < self.count(),
            provider matches Some(p) ==> *p == self.provider_at(id as int),
    {
        if id < self.providers.len() {
            Some(&self.providers[id].provider)
        } else {
            None
        }
    }

    /// The priority of the provider at place `id`, if there is one.
    pub fn priority(&self, id: usize) -> (priority: Option<u32>)
        ensures
            priority is Some <==> id < self.count(),
            priority matches Some(p) ==> p == self.priority_at(id as int),
    {
        if id < self.providers.len() {
            Some(self.providers[id].priority)
        } else {
            None
        }
    }

    /// The candidate list for a call of `tenant` on `chain_id` at time `now`.
    ///
    /// The chain identifier is normalized first. A chain that no provider
    /// serves gives `ChainNotFound`; every other chain gives a list that is
    /// not empty.
    pub fn select(&self, chain_id: &str, tenant: &str, tracker: &RateLimitTracker, now: u64) -> (candidates:
        Result<Vec<usize>, RpcError>)
        ensures
            candidates is Err <==> !self.serves(lowercase(chain_id@)),
            candidates matches Err(e) ==> e == RpcError::ChainNotFound,
            candidates matches Ok(list) ==> list.len() > 0 && self.is_selection(
                list@,
                *tracker,
                tenant@,
                now,
                lowercase(chain_id@),
            ),
    {
        let chain = to_lowercase(chain_id);
        self.select_normalized(chain.as_str(), tenant, tracker, now)
    }

    /// The candidate list for a chain whose identifier is normalized already.
    pub fn select_normalized(
        &self,
        chain: &str,
        tenant: &str,
        tracker: &RateLimitTracker,
        now: u64,
    ) -> (candidates: Result<Vec<usize>, RpcError>)
        ensures
            candidates is Err <==> !self.serves(chain@),
            candidates matches Err(e) ==> e == RpcError::ChainNotFound,
            candidates matches Ok(list) ==> list.len() > 0 && self.is_selection(
                list@,
                *tracker,
                tenant@,
                now,
                chain@,
            ),
    {
        let ghost t = *tracker;
        let ghost who = tenant@;
        let ghost c = chain@;
        let mut ranked: Vec<usize> = Vec::new();
        let mut fallback: Option<(usize, u64)> = None;
        let mut id: usize = 0;
        while id < self.providers.len()
            invariant
                id <= self.providers.len(),
                t == *tracker,
                who == tenant@,
                c == chain@,
                forall|q: int|
                    0 <= q < ranked.len() ==> (#[trigger] ranked[q]) < id && self.eligible(
                        t,
                        who,
                        now,
                        c,
                        ranked[q] as int,
                    ),
                forall|e: int|
                    0 <= e < id && #[trigger] self.eligible(t, who, now, c, e) ==> exists|q: int|
                        0 <= q < ranked.len() && ranked[q] == e,
                forall|a: int, b: int|
                    0 <= a < b < ranked.len() ==> self.precedes(
                        #[trigger] ranked[a] as int,
                        #[trigger] ranked[b] as int,
                    ),
                fallback matches Some((best, end)) ==> best < id && self.supports(best as int, c)
                    && end == t.cooldown_of(best, who).rejected_until,
                fallback matches Some((best, end)) ==> forall|other: int|
                    0 <= other < id && #[trigger] self.supports(other, c) && other != best
                        && t.in_cooldown(other as usize, who, now) ==> self.cools_before(
                        t,
                        who,
                        best as int,
                        other,
                    ),
                fallback is None ==> forall|other: int|
                    0 <= other < id && #[trigger] self.supports(other, c) ==> !t.in_cooldown(
                        other as usize,
                        who,
                        now,
                    ),
            decreases self.providers.len() - id,
        {
            if self.providers[id].provider.supports_caip_chainid(chain) {
                assert(self.supports(id as int, c));
                let end = tracker.rejected_until(id, tenant);
                if end > now {
                    let better = match fallback {
                        None => true,
                        Some((best, best_end)) => end < best_end || (end == best_end
                            && self.providers[id].priority > self.providers[best].priority),
                    };
                    if better {
                        fallback = Some((id, end));
                    }
                } else {
                    let priority = self.providers[id].priority;
                    let mut place: usize = 0;
                    while place < ranked.len() && self.providers[ranked[place]].priority
                        >= priority
                        invariant
                            place <= ranked.len(),
                            id < self.providers.len(),
                            priority == self.priority_at(id as int),
                            forall|q: int|
                                0 <= q < ranked.len() ==> (#[trigger] ranked[q]) < id,
                            forall|q: int|
                                0 <= q < place ==> self.priority_at(#[trigger] ranked[q] as int)
                                    >= priority,
                        decreases ranked.len() - place,
                    {
                        place = place + 1;
                    }
                    let ghost before = ranked@;
                    ranked.insert(place, id);
                    proof {
                        assert forall|q: int| 0 <= q < ranked.len() implies (
                        #[trigger] ranked[q]) < id + 1 && self.eligible(
                            t,
                            who,
                            now,
                            c,
                            ranked[q] as int,
                        ) by {
                            if q < place {
                                assert(ranked[q] == before[q]);
                            } else if q > place {
                                assert(ranked[q] == before[q - 1]);
                            }
                        }
                        assert forall|e: int|
                            0 <= e < id + 1 && #[trigger] self.eligible(
                                t,
                                who,
                                now,
                                c,
                                e,
                            ) implies exists|q: int| 0 <= q < ranked.len() && ranked[q] == e by {
                            if e == id {
                                assert(ranked[place as int] == e);
                            } else {
                                let q = choose|q: int| 0 <= q < before.len() && before[q] == e;
                                if q < place {
                                    assert(ranked[q] == e);
                                } else {
                                    assert(ranked[q + 1] == e);
                                }
                            }
                        }
                        assert forall|a: int, b: int| 0 <= a < b < ranked.len() implies self.precedes(
                            #[trigger] ranked[a] as int,
                            #[trigger] ranked[b] as int,
                        ) by {
                            if b < place {
                                assert(ranked[a] == before[a] && ranked[b] == before[b]);
                            } else if a > place {
                                assert(ranked[a] == before[a - 1] && ranked[b] == before[b - 1]);
                            } else if a == place {
                                assert(ranked[b] == before[b - 1]);
                                if b - 1 > place {
                                    assert(self.precedes(
                                        before[place as int] as int,
                                        before[b - 1] as int,
                                    ));
                                }
                            } else if b == place {
                                assert(ranked[a] == before[a]);
                            } else {
                                assert(ranked[a] == before[a] && ranked[b] == before[b - 1]);
                            }
                        }
                    }
                }
            }
            id = id + 1;
        }
        if ranked.len() > 0 {
            proof {
                assert(self.eligible(t, who, now, c, ranked[0] as int));
                assert(self.supports(ranked[0] as int, c));
            }
            Ok(ranked)
        } else {
            match fallback {
                Some((best, _)) => {
                    let mut single: Vec<usize> = Vec::new();
                    single.push(best);
                    proof {
                        assert forall|e: int| !self.eligible(t, who, now, c, e) by {
                            if self.eligible(t, who, now, c, e) {
                                let q = choose|q: int| 0 <= q < ranked.len() && ranked[q] == e;
                            }
                        }
                        assert forall|other: int| #[trigger]
                            self.supports(other, c) && other != best implies self.cools_before(
                            t,
                            who,
                            best as int,
                            other,
                        ) by {
                            assert(!self.eligible(t, who, now, c, other));
                        }
                    }
                    Ok(single)
                },
                None => {
                    proof {
                        assert forall|e: int| !self.supports(e, c) by {
                            if self.supports(e, c) {
                                assert(self.eligible(t, who, now, c, e));
                                let q = choose|q: int| 0 <= q < ranked.len() && ranked[q] == e;
                            }
                        }
                    }
                    Err(RpcError::ChainNotFound)
                },
            }
        }
    }

    /// The primary choice for a call: the head of the candidate list, or
    /// `None` where no provider serves the chain.
    pub fn get_provider_for_chain_id(
        &self,
        chain_id: &str,
        tenant: &str,
        tracker: &RateLimitTracker,
        now: u64,
    ) -> (primary: Option<usize>)
        ensures
            primary is None <==> !self.serves(lowercase(chain_id@)),
            primary matches Some(id) ==> exists|list: Seq<usize>|
                list.len() > 0 && list[0] == id && #[trigger] self.is_selection(
                    list,
                    *tracker,
                    tenant@,
                    now,
                    lowercase(chain_id@),
                ),
    {
        match self.select(chain_id, tenant, tracker, now) {
            Ok(list) => {
                assert(self.is_selection(list@, *tracker, tenant@, now, lowercase(chain_id@)));
                Some(list[0])
            },
            Err(_) => None,
        }
    }
}

/// Whether `list` holds exactly the members of `members`, in the static order
/// of the registry.
spec fn lists_in_order(registry: ProviderRegistry, list: Seq<usize>, members: Set<int>) -> bool {
    &&& forall|i: int| 0 <= i < list.len() ==> members.contains(#[trigger] list[i] as int)
    &&& forall|id: int| #[trigger]
        members.contains(id) ==> exists|i: int| 0 <= i < list.len() && list[i] == id
    &&& forall|i: int, j: int|
        0 <= i < j < list.len() ==> registry.precedes(
            #[trigger] list[i] as int,
            #[trigger] list[j] as int,
        )
}

proof fn lemma_one_order(
    registry: ProviderRegistry,
    first: Seq<usize>,
    second: Seq<usize>,
    members: Set<int>,
)
    requires
        lists_in_order(registry, first, members),
        lists_in_order(registry, second, members),
    ensures
        first == second,
    decreases first.len(),
{
    if first.len() == 0 {
        if second.len() > 0 {
            assert(members.contains(second[0] as int));
        }
        assert(first =~= second);
    } else {
        let n = first.len() - 1;
        let x = first[n];
        assert(members.contains(x as int));
        let j = choose|j: int| 0 <= j < second.len() && second[j] == x as int;
        if j < second.len() - 1 {
            let y = second[j + 1];
            assert(registry.precedes(second[j] as int, second[j + 1] as int));
            assert(members.contains(y as int));
            let i = choose|i: int| 0 <= i < first.len() && first[i] == y as int;
            if i < n {
                assert(registry.precedes(first[i] as int, first[n] as int));
            }
            assert(false);
        }
        let rest = members.remove(x as int);
        let a = first.drop_last();
        let b = second.drop_last();
        assert(lists_in_order(registry, a, rest)) by {
            assert forall|i: int| 0 <= i < a.len() implies rest.contains(#[trigger] a[i] as int) by {
                assert(a[i] == first[i]);
                assert(registry.precedes(first[i] as int, first[n] as int));
            }
            assert forall|id: int| #[trigger] rest.contains(id) implies exists|i: int|
                0 <= i < a.len() && a[i] == id by {
                assert(members.contains(id));
                let i = choose|i: int| 0 <= i < first.len() && first[i] == id;
                assert(a[i] == id);
            }
            assert forall|i: int, k: int| 0 <= i < k < a.len() implies registry.precedes(
                #[trigger] a[i] as int,
                #[trigger] a[k] as int,
            ) by {
                assert(a[i] == first[i] && a[k] == first[k]);
            }
        }
        assert(lists_in_order(registry, b, rest)) by {
            assert forall|i: int| 0 <= i < b.len() implies rest.contains(#[trigger] b[i] as int) by {
                assert(b[i] == second[i]);
                assert(registry.precedes(second[i] as int, second[j] as int));
            }
            assert forall|id: int| #[trigger] rest.contains(id) implies exists|i: int|
                0 <= i < b.len() && b[i] == id by {
                assert(members.contains(id));
                let i = choose|i: int| 0 <= i < second.len() && second[i] == id;
                assert(b[i] == id);
            }
            assert forall|i: int, k: int| 0 <= i < k < b.len() implies registry.precedes(
                #[trigger] b[i] as int,
                #[trigger] b[k] as int,
            ) by {
                assert(b[i] == second[i] && b[k] == second[k]);
            }
        }
        lemma_one_order(registry, a, b, rest);
        assert(first =~= a.push(x));
        assert(second =~= b.push(x));
    }
}

/// Selection is deterministic: for one registry, one state of the tracker, one
/// tenant, one time and one chain there is one candidate list only.
pub proof fn lemma_selection_is_unique(
    registry: ProviderRegistry,
    tracker: RateLimitTracker,
    tenant: Seq<char>,
    now: u64,
    chain: Seq<char>,
    first: Seq<usize>,
    second: Seq<usize>,
)
    requires
        registry.is_selection(first, tracker, tenant, now, chain),
        registry.is_selection(second, tracker, tenant, now, chain),
    ensures
        first == second,
{
    if registry.any_eligible(tracker, tenant, now, chain) {
        let members = Set::new(|id: int| registry.eligible(tracker, tenant, now, chain, id));
        assert(lists_in_order(registry, first, members));
        assert(lists_in_order(registry, second, members));
        lemma_one_order(registry, first, second, members);
    } else {
        let a = first[0] as int;
        let b = second[0] as int;
        if a != b {
            assert(registry.supports(b, chain) && b != a);
            assert(registry.cools_before(tracker, tenant, a, b));
            assert(registry.supports(a, chain) && a != b);
            assert(registry.cools_before(tracker, tenant, b, a));
        }
        assert(first =~= second);
    }
}

/// Chain matching ignores case: two identifiers that differ in case only are
/// served alike and have the same candidate lists.
pub proof fn lemma_selection_ignores_case(
    registry: ProviderRegistry,
    tracker: RateLimitTracker,
    tenant: Seq<char>,
    now: u64,
    one: Seq<char>,
    other: Seq<char>,
    list: Seq<usize>,
)
    requires
        same_chain(one, other),
    ensures
        registry.serves(lowercase(one)) == registry.serves(lowercase(other)),
        registry.is_selection(list, tracker, tenant, now, lowercase(one)) == registry.is_selection(
            list,
            tracker,
            tenant,
            now,
            lowercase(other),
        ),
{
}

/// A cooldown belongs to one tenant. Where exactly two providers serve a
/// chain and the preferred one is in cooldown for one tenant only, that tenant
/// gets the other provider alone, while a tenant for which the preferred one
/// is not in cooldown still gets the preferred one first.
pub proof fn lemma_cooldown_is_per_tenant(
    registry: ProviderRegistry,
    tracker: RateLimitTracker,
    chain: Seq<char>,
    now: u64,
    preferred: int,
    second: int,
    cooled: Seq<char>,
    free: Seq<char>,
    for_cooled: Seq<usize>,
    for_free: Seq<usize>,
)
    requires
        registry.supports(preferred, chain),
        registry.supports(second, chain),
        forall|id: int| #[trigger] registry.supports(id, chain) ==> id == preferred || id == second,
        registry.precedes(preferred, second),
        tracker.in_cooldown(preferred as usize, cooled, now),
        !tracker.in_cooldown(second as usize, cooled, now),
        !tracker.in_cooldown(preferred as usize, free, now),
        registry.is_selection(for_cooled, tracker, cooled, now, chain),
        registry.is_selection(for_free, tracker, free, now, chain),
    ensures
        for_cooled == seq![second as usize],
        for_free.len() > 0 && for_free[0] == preferred,
{
    assert(registry.eligible(tracker, cooled, now, chain, second));
    assert(registry.eligible(tracker, free, now, chain, preferred));
    let i = choose|i: int| 0 <= i < for_cooled.len() && for_cooled[i] == second;
    assert(registry.eligible(tracker, cooled, now, chain, for_cooled[0] as int));
    if for_cooled.len() > 1 {
        assert(registry.eligible(tracker, cooled, now, chain, for_cooled[1] as int));
        assert(registry.precedes(for_cooled[0] as int, for_cooled[1] as int));
    }
    assert(for_cooled =~= seq![second as usize]);
    let j = choose|j: int| 0 <= j < for_free.len() && for_free[j] == preferred;
    if j > 0 {
        assert(registry.eligible(tracker, free, now, chain, for_free[0] as int));
        assert(registry.precedes(for_free[0] as int, for_free[j] as int));
    }
}

/// Every candidate serves the chain it was selected for.
pub proof fn lemma_candidates_serve(
    registry: ProviderRegistry,
    tracker: RateLimitTracker,
    tenant: Seq<char>,
    now: u64,
    chain: Seq<char>,
    list: Seq<usize>,
    i: int,
)
    requires
        registry.is_selection(list, tracker, tenant, now, chain),
        0 <= i < list.len(),
    ensures
        registry.supports(list[i] as int, chain),
        list[i] < registry.count(),
{
    if registry.any_eligible(tracker, tenant, now, chain) {
        assert(registry.eligible(tracker, tenant, now, chain, list[i] as int));
    }
}

} // verus!
