//! The rate-limit tracker.
//!
//! For each pair of a provider and a tenant the tracker counts the rejections
//! and keeps the time until which the pair is in cooldown. A cooldown belongs
//! to one tenant: the rejections of one tenant never touch what the tracker
//! holds for another. Time is a number that the caller supplies, in a unit of
//! its choice; the tracker only compares and adds.

use vstd::prelude::*;
use crate::metrics::Metric;
use crate::providers::ProviderKind;

verus! {

/// What the tracker holds for one provider and one tenant.
#[derive(Debug)]
pub struct RateLimitState {
    /// The provider's place in the registry.
    pub provider: usize,
    pub tenant: String,
    /// The rejections counted so far; it stops at `u64::MAX`.
    pub rejections: u64,
    /// The pair is in cooldown at every time before this one.
    pub rejected_until: u64,
}

/// The counters of one pair, as the tracker's view holds them.
pub struct Cooldown {
    pub rejections: u64,
    pub rejected_until: u64,
}

/// The tracker: the cooldown window and the state of every pair that was
/// rejected at least once.
#[derive(Debug)]
pub struct RateLimitTracker {
    window: u64,
    states: Vec<RateLimitState>,
}

/// `a + b`, or `u64::MAX` where that does not fit.
pub open spec fn saturating_sum(a: u64, b: u64) -> u64 {
    if a + b > u64::MAX {
        u64::MAX
    } else {
        (a + b) as u64
    }
}

/// What one more rejection at time `now` makes of a pair's counters: one more
/// rejection, and a cooldown that lasts at least until `now + window` and is
/// never shortened.
pub open spec fn after_rejection(before: Cooldown, now: u64, window: u64) -> Cooldown {
    let until = saturating_sum(now, window);
    Cooldown {
        rejections: saturating_sum(before.rejections, 1),
        rejected_until: if before.rejected_until > until {
            before.rejected_until
        } else {
            until
        },
    }
}

spec fn keyed(states: Seq<RateLimitState>, i: int, key: (usize, Seq<char>)) -> bool {
    0 <= i < states.len() && states[i].provider == key.0 && states[i].tenant@ == key.1
}

spec fn known(states: Seq<RateLimitState>, key: (usize, Seq<char>)) -> bool {
    exists|i: int| keyed(states, i, key)
}

spec fn distinct_pairs(states: Seq<RateLimitState>) -> bool {
    forall|i: int, j: int|
        0 <= i < j < states.len() ==> !(states[i].provider == states[j].provider
            && states[i].tenant@ == states[j].tenant@)
}

spec fn counters(state: RateLimitState) -> Cooldown {
    Cooldown { rejections: state.rejections, rejected_until: state.rejected_until }
}

spec fn states_map(states: Seq<RateLimitState>) -> Map<(usize, Seq<char>), Cooldown> {
    Map::new(
        |key: (usize, Seq<char>)| known(states, key),
        |key: (usize, Seq<char>)| counters(states[choose|i: int| keyed(states, i, key)]),
    )
}

proof fn lemma_state_entry(states: Seq<RateLimitState>, i: int)
    requires
        distinct_pairs(states),
        0 <= i < states.len(),
    ensures
        states_map(states).contains_key((states[i].provider, states[i].tenant@)),
        states_map(states)[(states[i].provider, states[i].tenant@)] == counters(states[i]),
{
    let key = (states[i].provider, states[i].tenant@);
    assert(keyed(states, i, key));
    let c = choose|c: int| keyed(states, c, key);
    assert(keyed(states, c, key));
    assert(c == i);
}

/// The place of a pair among the states, if it has one.
fn find(states: &Vec<RateLimitState>, provider: usize, tenant: &String) -> (found: Option<usize>)
    ensures
        found matches Some(i) ==> keyed(states@, i as int, (provider, tenant@)),
        found is None ==> !known(states@, (provider, tenant@)),
{
    let mut i: usize = 0;
    while i < states.len()
        invariant
            i <= states.len(),
            forall|j: int| 0 <= j < i ==> !keyed(states@, j, (provider, tenant@)),
        decreases states.len() - i,
    {
        if states[i].provider == provider && states[i].tenant == *tenant {
            return Some(i);
        }
        i = i + 1;
    }
    assert(!known(states@, (provider, tenant@))) by {
        if known(states@, (provider, tenant@)) {
            let i = choose|i: int| keyed(states@, i, (provider, tenant@));
            assert(keyed(states@, i, (provider, tenant@)));
        }
    }
    None
}

impl View for RateLimitTracker {
    type V = Map<(usize, Seq<char>), Cooldown>;

    /// The counters of every pair that was rejected at least once, by the
    /// provider's place in the registry and the tenant.
    closed spec fn view(&self) -> Map<(usize, Seq<char>), Cooldown> {
        states_map(self.states@)
    }
}

impl RateLimitTracker {
    #[verifier::type_invariant]
    spec fn inv(&self) -> bool {
        distinct_pairs(self.states@)
    }

    /// The length of the cooldown that one rejection starts.
    pub closed spec fn window(&self) -> u64 {
        self.window
    }

    /// The counters of a pair; both are zero for a pair never rejected.
    pub open spec fn cooldown_of(&self, provider: usize, tenant: Seq<char>) -> Cooldown {
        if self@.contains_key((provider, tenant)) {
            self@[(provider, tenant)]
        } else {
            Cooldown { rejections: 0, rejected_until: 0 }
        }
    }

    /// Whether a pair is in cooldown at time `now`: its cooldown ends later.
    pub open spec fn in_cooldown(&self, provider: usize, tenant: Seq<char>, now: u64) -> bool {
        self.cooldown_of(provider, tenant).rejected_until > now
    }

    /// A tracker that holds nothing yet.
    pub fn new(window: u64) -> (tracker: Self)
        ensures
            tracker@ == Map::<(usize, Seq<char>), Cooldown>::empty(),
            tracker.window() == window,
    {
        let tracker = RateLimitTracker { window, states: Vec::new() };
        assert(tracker@ =~= Map::<(usize, Seq<char>), Cooldown>::empty()) by {
            assert forall|key: (usize, Seq<char>)| !known(tracker.states@, key) by {
                if known(tracker.states@, key) {
                    let i = choose|i: int| keyed(tracker.states@, i, key);
                    assert(keyed(tracker.states@, i, key));
                }
            }
        }
        tracker
    }

    pub fn cooldown_window(&self) -> (window: u64)
        ensures
            window == self.window(),
    {
        self.window
    }

    /// The rejections counted for a pair.
    pub fn rejection_count(&self, provider: usize, tenant: &str) -> (count: u64)
        ensures
            count == self.cooldown_of(provider, tenant@).rejections,
    {
        proof {
            use_type_invariant(self);
        }
        let key = tenant.to_owned();
        match find(&self.states, provider, &key) {
            Some(i) => {
                proof {
                    lemma_state_entry(self.states@, i as int);
                }
                self.states[i].rejections
            },
            None => 0,
        }
    }

    /// The time at which the cooldown of a pair ends.
    pub fn rejected_until(&self, provider: usize, tenant: &str) -> (until: u64)
        ensures
            until == self.cooldown_of(provider, tenant@).rejected_until,
    {
        proof {
            use_type_invariant(self);
        }
        let key = tenant.to_owned();
        match find(&self.states, provider, &key) {
            Some(i) => {
                proof {
                    lemma_state_entry(self.states@, i as int);
                }
                self.states[i].rejected_until
            },
            None => 0,
        }
    }

    /// What the tracker holds for a pair; the counters of a pair never
    /// rejected are zero.
    pub fn state(&self, provider: usize, tenant: &str) -> (state: RateLimitState)
        ensures
            state.provider == provider,
            state.tenant@ == tenant@,
            state.rejections == self.cooldown_of(provider, tenant@).rejections,
            state.rejected_until == self.cooldown_of(provider, tenant@).rejected_until,
    {
        RateLimitState {
            provider,
            tenant: tenant.to_owned(),
            rejections: self.rejection_count(provider, tenant),
            rejected_until: self.rejected_until(provider, tenant),
        }
    }

    /// Whether a pair is in cooldown at time `now`.
    pub fn is_in_cooldown(&self, provider: usize, tenant: &str, now: u64) -> (cooling: bool)
        ensures
            cooling == self.in_cooldown(provider, tenant@, now),
    {
        self.rejected_until(provider, tenant) > now
    }

    /// Counts one rejection of `tenant` by `provider` at time `now` and starts
    /// or extends the pair's cooldown. No other pair changes.
    pub fn record_rejection(&mut self, provider: usize, tenant: &str, now: u64)
        ensures
            final(self)@ == old(self)@.insert(
                (provider, tenant@),
                after_rejection(old(self).cooldown_of(provider, tenant@), now, old(self).window()),
            ),
            final(self).window() == old(self).window(),
    {
        proof {
            use_type_invariant(&*self);
        }
        let key = tenant.to_owned();
        let window = self.window;
        let until = now.saturating_add(window);
        let ghost before = self.states@;
        let ghost pair = (provider, tenant@);
        let ghost updated = after_rejection(self.cooldown_of(provider, tenant@), now, self.window);
        let mut taken = RateLimitTracker { window, states: Vec::new() };
        core::mem::swap(self, &mut taken);
        let mut states = taken.states;
        match find(&states, provider, &key) {
            Some(i) => {
                proof {
                    lemma_state_entry(before, i as int);
                }
                let count = states[i].rejections.saturating_add(1);
                let later = if states[i].rejected_until > until {
                    states[i].rejected_until
                } else {
                    until
                };
                let state = RateLimitState {
                    provider,
                    tenant: key,
                    rejections: count,
                    rejected_until: later,
                };
                states.set(i, state);
                proof {
                    let after = states@;
                    assert(distinct_pairs(after)) by {
                        assert forall|a: int, b: int| 0 <= a < b < after.len() implies !(
                        after[a].provider == after[b].provider && after[a].tenant@
                            == after[b].tenant@) by {
                            assert(after[a].provider == before[a].provider && after[a].tenant@
                                == before[a].tenant@);
                            assert(after[b].provider == before[b].provider && after[b].tenant@
                                == before[b].tenant@);
                        }
                    }
                    assert forall|k: (usize, Seq<char>)|
                        known(after, k) <==> #[trigger] known(before, k) by {
                        if known(after, k) {
                            let t = choose|t: int| keyed(after, t, k);
                            assert(keyed(before, t, k));
                        }
                        if known(before, k) {
                            let t = choose|t: int| keyed(before, t, k);
                            assert(keyed(after, t, k));
                        }
                    }
                    assert(known(before, pair)) by {
                        assert(keyed(before, i as int, pair));
                    }
                    assert forall|k: (usize, Seq<char>)| known(after, k) implies states_map(
                        after,
                    )[k] == states_map(before).insert(pair, updated)[k] by {
                        let t = choose|t: int| keyed(after, t, k);
                        assert(keyed(after, t, k));
                        lemma_state_entry(after, t);
                        assert(keyed(before, t, k));
                        lemma_state_entry(before, t);
                        if t == i {
                            assert(k == pair);
                        } else {
                            assert(k != pair);
                            assert(after[t] == before[t]);
                        }
                    }
                    assert(states_map(after) =~= states_map(before).insert(pair, updated));
                }
            },
            None => {
                let state = RateLimitState {
                    provider,
                    tenant: key,
                    rejections: 1,
                    rejected_until: until,
                };
                states.push(state);
                proof {
                    let after = states@;
                    let last = before.len() as int;
                    assert(distinct_pairs(after)) by {
                        assert forall|a: int, b: int| 0 <= a < b < after.len() implies !(
                        after[a].provider == after[b].provider && after[a].tenant@
                            == after[b].tenant@) by {
                            if b == last {
                                assert(after[a] == before[a]);
                                if after[a].provider == provider && after[a].tenant@ == tenant@ {
                                    assert(keyed(before, a, pair));
                                }
                            } else {
                                assert(after[a] == before[a]);
                                assert(after[b] == before[b]);
                            }
                        }
                    }
                    assert(keyed(after, last, pair));
                    assert forall|k: (usize, Seq<char>)|
                        #[trigger] known(after, k) <==> (known(before, k) || k == pair) by {
                        if known(after, k) {
                            let t = choose|t: int| keyed(after, t, k);
                            if t < last {
                                assert(keyed(before, t, k));
                            }
                        }
                        if known(before, k) {
                            let t = choose|t: int| keyed(before, t, k);
                            assert(keyed(after, t, k));
                        }
                    }
                    assert forall|k: (usize, Seq<char>)| known(after, k) implies states_map(
                        after,
                    )[k] == states_map(before).insert(pair, updated)[k] by {
                        let t = choose|t: int| keyed(after, t, k);
                        assert(keyed(after, t, k));
                        lemma_state_entry(after, t);
                        if t == last {
                            assert(k == pair);
                        } else {
                            assert(after[t] == before[t]);
                            assert(keyed(before, t, k));
                            lemma_state_entry(before, t);
                            assert(k != pair);
                        }
                    }
                    assert(states_map(after) =~= states_map(before).insert(pair, updated));
                }
            },
        }
        *self = RateLimitTracker { window, states };
    }

    /// Takes the provider's verdict on one response. A throttled response is
    /// counted, starts or extends the cooldown of the pair and gives the
    /// metric for it; any other response changes nothing and gives none.
    pub fn classify(
        &mut self,
        provider: usize,
        kind: ProviderKind,
        tenant: &str,
        rate_limited: bool,
        now: u64,
    ) -> (metric: Option<Metric>)
        ensures
            final(self).window() == old(self).window(),
            rate_limited ==> final(self)@ == old(self)@.insert(
                (provider, tenant@),
                after_rejection(old(self).cooldown_of(provider, tenant@), now, old(self).window()),
            ),
            !rate_limited ==> final(self)@ == old(self)@,
            rate_limited ==> (metric matches Some(
                Metric::RateLimitedCall { provider: p, kind: k, project_id: t },
            ) && p == provider && k == kind && t@ == tenant@),
            !rate_limited ==> metric is None,
    {
        if rate_limited {
            self.record_rejection(provider, tenant, now);
            Some(Metric::RateLimitedCall { provider, kind, project_id: tenant.to_owned() })
        } else {
            None
        }
    }
}

/// A rejection is scoped to one tenant and one provider: it leaves the
/// counters and the cooldown of every other pair as they were.
pub proof fn lemma_rejection_is_scoped(
    before: RateLimitTracker,
    after: RateLimitTracker,
    provider: usize,
    tenant: Seq<char>,
    now: u64,
    other_provider: usize,
    other_tenant: Seq<char>,
    at: u64,
)
    requires
        after@ == before@.insert(
            (provider, tenant),
            after_rejection(before.cooldown_of(provider, tenant), now, before.window()),
        ),
        other_provider != provider || other_tenant != tenant,
    ensures
        after.cooldown_of(other_provider, other_tenant) == before.cooldown_of(
            other_provider,
            other_tenant,
        ),
        after.in_cooldown(other_provider, other_tenant, at) == before.in_cooldown(
            other_provider,
            other_tenant,
            at,
        ),
{
    assert((other_provider, other_tenant) != (provider, tenant));
}

/// After a rejection at time `now` the pair is in cooldown at every time
/// before `now + window`, and its cooldown never ends earlier than it did.
pub proof fn lemma_rejection_starts_cooldown(
    before: RateLimitTracker,
    after: RateLimitTracker,
    provider: usize,
    tenant: Seq<char>,
    now: u64,
    at: u64,
)
    requires
        after@ == before@.insert(
            (provider, tenant),
            after_rejection(before.cooldown_of(provider, tenant), now, before.window()),
        ),
    ensures
        at < now + before.window() && at < u64::MAX ==> after.in_cooldown(provider, tenant, at),
        before.in_cooldown(provider, tenant, at) ==> after.in_cooldown(provider, tenant, at),
        after.cooldown_of(provider, tenant).rejections == saturating_sum(
            before.cooldown_of(provider, tenant).rejections,
            1,
        ),
{
}

} // verus!
