use vstd::prelude::*;
use vstd::string::StringExecFns;
use crate::consumer::{Consumer, ConsumerV, TenantResource, resource_consumer, with_connections};
use crate::host::{HostMatcher, header_key, host_key_of, opt_view, pattern_compiles, resolve_key};
use crate::limiter::{Cascade, CascadeV, all_granted, asked_in_order};
use crate::registry::Registry;
use crate::tier::{Tier, TierResource, TierV, quotas_valid, resource_tier};

verus! {

/// The shape of a change that the control plane reports.
#[derive(Clone, Copy, Debug, PartialEq, Eq, Structural)]
pub enum EventKind {
    Added,
    Modified,
    Deleted,
}

/// A change to one tenant resource.
pub struct TenantEvent {
    pub kind: EventKind,
    pub resource: TenantResource,
}

/// A change to one tier resource.
pub struct TierEvent {
    pub kind: EventKind,
    pub resource: TierResource,
}

/// What the proxy does with one request.
#[derive(Clone, Copy, Debug, PartialEq, Eq, Structural)]
pub enum Outcome {
    /// Forwarded, with one more connection counted for the tenant.
    Admitted,
    /// No tenant holds the key.
    AuthRejected,
    /// A bucket of the tenant's tier had no permit left.
    RateLimited,
    /// The upstream target is down.
    Unhealthy,
    /// The tenant's tier is not defined: the request is denied.
    TierUndefined,
}

/// The shared state of the proxy: tenants, tiers, buckets and upstream health.
pub struct State {
    host_matcher: HostMatcher,
    consumers: Registry<Consumer>,
    tiers: Registry<Tier>,
    limiters: Registry<Cascade>,
    upstream_health: bool,
    builds: Ghost<nat>,
    answers: Ghost<Seq<bool>>,
}

/// `m` with the connection count of `k` set to `n`, where `k` is present.
pub open spec fn set_connections(m: Map<Seq<char>, ConsumerV>, k: Seq<char>, n: nat) -> Map<
    Seq<char>,
    ConsumerV,
> {
    if m.contains_key(k) {
        m.insert(k, with_connections(m[k], n))
    } else {
        m
    }
}

/// One more connection for `k`, where `k` is present and below the largest count.
pub open spec fn inc_spec(m: Map<Seq<char>, ConsumerV>, k: Seq<char>) -> Map<
    Seq<char>,
    ConsumerV,
> {
    if m.contains_key(k) && m[k].active_connections < usize::MAX {
        set_connections(m, k, m[k].active_connections + 1)
    } else {
        m
    }
}

/// One connection less for `k`, where `k` is present and has one.
pub open spec fn dec_spec(m: Map<Seq<char>, ConsumerV>, k: Seq<char>) -> Map<
    Seq<char>,
    ConsumerV,
> {
    if m.contains_key(k) && m[k].active_connections > 0 {
        set_connections(m, k, (m[k].active_connections - 1) as nat)
    } else {
        m
    }
}

/// The connection count of `k`; zero where `k` is absent.
pub open spec fn connections_of(m: Map<Seq<char>, ConsumerV>, k: Seq<char>) -> nat {
    if m.contains_key(k) {
        m[k].active_connections
    } else {
        0
    }
}

/// A tenant event carries what its kind needs: the auth token to delete, or a
/// whole record to add or modify.
pub open spec fn tenant_event_valid(ev: TenantEvent) -> bool {
    match ev.kind {
        EventKind::Deleted => ev.resource.auth_token.is_some(),
        _ => resource_consumer(ev.resource).is_some(),
    }
}

/// The tenants after one event: a deletion removes the key; an addition or a
/// modification stores the new record under its key, keeping the connection
/// count that the key already had; a malformed event changes nothing.
pub open spec fn apply_tenant_spec(m: Map<Seq<char>, ConsumerV>, ev: TenantEvent) -> Map<
    Seq<char>,
    ConsumerV,
> {
    match ev.kind {
        EventKind::Deleted => match ev.resource.auth_token {
            Some(t) => m.remove(t@),
            None => m,
        },
        _ => match resource_consumer(ev.resource) {
            Some(c) => if m.contains_key(c.key) {
                m.insert(c.key, with_connections(c, m[c.key].active_connections))
            } else {
                m.insert(c.key, c)
            },
            None => m,
        },
    }
}

/// The tenants after a stream of events, applied in order.
pub open spec fn apply_tenant_seq(m: Map<Seq<char>, ConsumerV>, evs: Seq<TenantEvent>) -> Map<
    Seq<char>,
    ConsumerV,
>
    decreases evs.len(),
{
    if evs.len() == 0 {
        m
    } else {
        apply_tenant_spec(apply_tenant_seq(m, evs.drop_last()), evs.last())
    }
}

/// A tier event carries what its kind needs: a name to delete, or a tier with
/// valid quotas to add or modify.
pub open spec fn tier_event_valid(ev: TierEvent) -> bool {
    match ev.kind {
        EventKind::Deleted => true,
        _ => resource_tier(ev.resource).is_some(),
    }
}

/// The tiers after one event.
pub open spec fn apply_tier_spec(m: Map<Seq<char>, TierV>, ev: TierEvent) -> Map<
    Seq<char>,
    TierV,
> {
    match ev.kind {
        EventKind::Deleted => m.remove(ev.resource.name@),
        _ => match resource_tier(ev.resource) {
            Some(t) => m.insert(t.name, t),
            None => m,
        },
    }
}

/// The tenant under `k` exists and its tier is defined.
pub open spec fn tier_defined_for(
    consumers: Map<Seq<char>, ConsumerV>,
    tiers: Map<Seq<char>, TierV>,
    k: Seq<char>,
) -> bool {
    consumers.contains_key(k) && tiers.contains_key(consumers[k].tier)
}

/// The outcome of a request: the health gate first, then the tenant lookup,
/// then the tier, then whether every bucket of the tier gave a permit.
pub open spec fn request_outcome(healthy: bool, known: bool, tier_defined: bool, permitted: bool) -> Outcome {
    if !healthy {
        Outcome::Unhealthy
    } else if !known {
        Outcome::AuthRejected
    } else if !tier_defined {
        Outcome::TierUndefined
    } else if !permitted {
        Outcome::RateLimited
    } else {
        Outcome::Admitted
    }
}

/// Decides a request from what the checks found.
pub fn outcome_of(healthy: bool, known: bool, tier_defined: bool, permitted: bool) -> (r: Outcome)
    ensures
        r == request_outcome(healthy, known, tier_defined, permitted),
{
    if !healthy {
        Outcome::Unhealthy
    } else if !known {
        Outcome::AuthRejected
    } else if !tier_defined {
        Outcome::TierUndefined
    } else if !permitted {
        Outcome::RateLimited
    } else {
        Outcome::Admitted
    }
}

impl State {
    pub closed spec fn consumers_view(&self) -> Map<Seq<char>, ConsumerV> {
        self.consumers.view_map()
    }

    pub closed spec fn tiers_view(&self) -> Map<Seq<char>, TierV> {
        self.tiers.view_map()
    }

    /// For each tenant key, what the tenant's buckets were built from.
    pub closed spec fn cascades_view(&self) -> Map<Seq<char>, CascadeV> {
        self.limiters.view_map()
    }

    pub closed spec fn healthy(&self) -> bool {
        self.upstream_health
    }

    /// How many cascades have been built; the next one gets this number.
    pub closed spec fn builds(&self) -> nat {
        self.builds@
    }

    /// What the buckets answered for the latest request, in the order asked;
    /// empty where the request was decided before any bucket was asked.
    pub closed spec fn last_answers(&self) -> Seq<bool> {
        self.answers@
    }

    pub closed spec fn wf(&self) -> bool {
        &&& forall|k: Seq<char>| #[trigger]
            self.limiters.view_map().contains_key(k) ==> self.limiters.view_map()[k].id
                < self.builds@
        &&& self.consumers.wf()
        &&& self.tiers.wf()
        &&& self.limiters.wf()
        &&& forall|k: Seq<char>| #[trigger]
            self.consumers.view_map().contains_key(k) ==> self.consumers.view_map()[k].key == k
        &&& forall|k: Seq<char>| #[trigger]
            self.tiers.view_map().contains_key(k) ==> {
                &&& self.tiers.view_map()[k].name == k
                &&& quotas_valid(self.tiers.view_map()[k].quotas)
            }
    }

    /// An empty state, unhealthy until a probe says otherwise, with the host
    /// pattern compiled; the error where the pattern does not compile.
    pub fn try_new() -> (r: Result<State, regex::Error>)
        ensures
            r.is_ok() == pattern_compiles("([dmtr_]?[\\w\\d-]+)?\\.?.+"@),
            r matches Ok(s) ==> {
                &&& s.wf()
                &&& s.consumers_view() == Map::<Seq<char>, ConsumerV>::empty()
                &&& s.tiers_view() == Map::<Seq<char>, TierV>::empty()
                &&& s.cascades_view() == Map::<Seq<char>, CascadeV>::empty()
                &&& !s.healthy()
            },
    {
        match HostMatcher::new() {
            Ok(host_matcher) => Ok(
                State {
                    host_matcher,
                    consumers: Registry::new(),
                    tiers: Registry::new(),
                    limiters: Registry::new(),
                    upstream_health: false,
                    builds: Ghost(0),
                    answers: Ghost(Seq::empty()),
                },
            ),
            Err(e) => Err(e),
        }
    }

    /// The tenant registered under `key`.
    pub fn get_consumer(&self, key: &str) -> (r: Option<Consumer>)
        requires
            self.wf(),
        ensures
            match r {
                Some(c) => {
                    &&& self.consumers_view().contains_key(key@)
                    &&& c@ == self.consumers_view()[key@]
                    &&& c@.key == key@
                },
                None => !self.consumers_view().contains_key(key@),
            },
    {
        let k = String::from_str(key);
        match self.consumers.get(&k) {
            Some(c) => Some(c.duplicate()),
            None => None,
        }
    }

    pub fn is_healthy(&self) -> (r: bool)
        ensures
            r == self.healthy(),
    {
        self.upstream_health
    }

    /// Records the outcome of the latest upstream probe.
    pub fn set_health(&mut self, healthy: bool)
        requires
            old(self).wf(),
        ensures
            final(self).wf(),
            final(self).healthy() == healthy,
            final(self).consumers_view() == old(self).consumers_view(),
            final(self).tiers_view() == old(self).tiers_view(),
            final(self).cascades_view() == old(self).cascades_view(),
    {
        self.upstream_health = healthy;
    }

    /// The tenant key that a request carries, from its auth header or its host.
    pub fn resolve_key(&self, host: &str, header: Option<&str>) -> (r: Option<String>)
        ensures
            opt_view(r) == match header_key(header) {
                Some(h) => Some(h),
                None => host_key_of(host@),
            },
            header_key(header).is_none() ==> (r matches Some(k) ==> crate::host::is_substring(
                k@,
                host@,
            )),
    {
        resolve_key(&self.host_matcher, host, header)
    }

    /// Applies one tenant event; a malformed one is skipped. Returns whether
    /// the event was well formed.
    pub fn apply_tenant_event(&mut self, ev: &TenantEvent) -> (r: bool)
        requires
            old(self).wf(),
        ensures
            final(self).wf(),
            r == tenant_event_valid(*ev),
            final(self).consumers_view() == apply_tenant_spec(old(self).consumers_view(), *ev),
            final(self).tiers_view() == old(self).tiers_view(),
            final(self).healthy() == old(self).healthy(),
            final(self).cascades_view() == match (ev.kind, ev.resource.auth_token) {
                (EventKind::Deleted, Some(t)) => old(self).cascades_view().remove(t@),
                _ => old(self).cascades_view(),
            },
            final(self).builds() == old(self).builds(),
    {
        match ev.kind {
            EventKind::Deleted => match &ev.resource.auth_token {
                Some(t) => {
                    self.consumers.remove(t);
                    self.limiters.remove(t);
                    true
                },
                None => false,
            },
            _ => match Consumer::from_resource(&ev.resource) {
                Some(c) => {
                    let k = c.key().clone();
                    let stored = match self.consumers.get(&k) {
                        Some(prev) => {
                            let n = prev.active_connections();
                            c.with_active_connections(n)
                        },
                        None => c,
                    };
                    self.consumers.upsert(k, stored);
                    true
                },
                None => false,
            },
        }
    }

    /// Applies a stream of tenant events in order, skipping the malformed ones.
    pub fn apply_tenant_events(&mut self, evs: &Vec<TenantEvent>)
        requires
            old(self).wf(),
        ensures
            final(self).wf(),
            final(self).consumers_view() == apply_tenant_seq(old(self).consumers_view(), evs@),
            final(self).tiers_view() == old(self).tiers_view(),
            final(self).healthy() == old(self).healthy(),
    {
        let ghost m0 = self.consumers_view();
        let mut i: usize = 0;
        while i < evs.len()
            invariant
                self.wf(),
                i <= evs@.len(),
                self.consumers_view() == apply_tenant_seq(m0, evs@.subrange(0, i as int)),
                self.tiers_view() == old(self).tiers_view(),
                self.healthy() == old(self).healthy(),
            decreases evs@.len() - i,
        {
            assert(evs@.subrange(0, i + 1).drop_last() =~= evs@.subrange(0, i as int));
            self.apply_tenant_event(&evs[i]);
            i = i + 1;
        }
        assert(evs@.subrange(0, evs@.len() as int) =~= evs@);
    }

    /// Applies one tier event; a malformed one is skipped. Returns whether
    /// the event was well formed. Tenants refer to tiers by name, so nothing
    /// on the tenants' side changes. The buckets built from a tier are left
    /// under their tenants' keys: a request is checked only against buckets
    /// built from its tier as the tier now stands, so buckets of a deleted or
    /// changed tier are never asked again, unless the tier comes back with the
    /// same quotas, in which case they are used again as they were.
    pub fn apply_tier_event(&mut self, ev: &TierEvent) -> (r: bool)
        requires
            old(self).wf(),
        ensures
            final(self).wf(),
            r == tier_event_valid(*ev),
            final(self).tiers_view() == apply_tier_spec(old(self).tiers_view(), *ev),
            final(self).consumers_view() == old(self).consumers_view(),
            final(self).cascades_view() == old(self).cascades_view(),
            final(self).healthy() == old(self).healthy(),
    {
        match ev.kind {
            EventKind::Deleted => {
                self.tiers.remove(&ev.resource.name);
                true
            },
            _ => match Tier::from_resource(&ev.resource) {
                Some(t) => {
                    let k = t.name().clone();
                    self.tiers.upsert(k, t);
                    true
                },
                None => false,
            },
        }
    }

    /// Decides one request for the tenant key `key`. The health gate comes
    /// first, then the lookup, then the tier, then the tenant's buckets. The
    /// buckets are kept from one request to the next while they stand built
    /// from the tenant's tier as it is; otherwise they are built afresh first.
    /// Only an admission counts a connection.
    pub fn decide_request(&mut self, key: &str) -> (r: Outcome)
        requires
            old(self).wf(),
        ensures
            final(self).wf(),
            final(self).tiers_view() == old(self).tiers_view(),
            final(self).healthy() == old(self).healthy(),
            !old(self).healthy() ==> r == Outcome::Unhealthy,
            old(self).healthy() && !old(self).consumers_view().contains_key(key@) ==> r
                == Outcome::AuthRejected,
            old(self).healthy() && old(self).consumers_view().contains_key(key@)
                && !tier_defined_for(old(self).consumers_view(), old(self).tiers_view(), key@)
                ==> r == Outcome::TierUndefined,
            r == Outcome::Unhealthy || r == Outcome::AuthRejected || r == Outcome::TierUndefined
                ==> {
                &&& final(self).cascades_view() == old(self).cascades_view()
                &&& final(self).builds() == old(self).builds()
                &&& final(self).last_answers().len() == 0
            },
            old(self).healthy() && tier_defined_for(
                old(self).consumers_view(),
                old(self).tiers_view(),
                key@,
            ) ==> {
                let t = old(self).consumers_view()[key@].tier;
                let quotas = old(self).tiers_view()[t].quotas;
                let cascades = old(self).cascades_view();
                let kept = cascades.contains_key(key@) && cascades[key@].tier == t
                    && cascades[key@].quotas == quotas;
                &&& kept ==> final(self).cascades_view() == cascades && final(self).builds()
                    == old(self).builds()
                &&& !kept ==> final(self).cascades_view() == cascades.insert(
                    key@,
                    CascadeV {
                        tier: t,
                        quotas: quotas,
                        buckets: quotas.len(),
                        id: old(self).builds(),
                    },
                ) && final(self).builds() == old(self).builds() + 1
                &&& final(self).cascades_view().contains_key(key@)
                &&& asked_in_order(
                    final(self).last_answers(),
                    final(self).cascades_view()[key@].buckets,
                )
                &&& r == if all_granted(
                    final(self).last_answers(),
                    final(self).cascades_view()[key@].buckets,
                ) {
                    Outcome::Admitted
                } else {
                    Outcome::RateLimited
                }
            },
            r == Outcome::Admitted ==> final(self).consumers_view() == inc_spec(
                old(self).consumers_view(),
                key@,
            ),
            r != Outcome::Admitted ==> final(self).consumers_view() == old(self).consumers_view(),
            exists|permitted: bool|
                r == #[trigger] request_outcome(
                    old(self).healthy(),
                    old(self).consumers_view().contains_key(key@),
                    tier_defined_for(old(self).consumers_view(), old(self).tiers_view(), key@),
                    permitted,
                ),
    {
        self.answers = Ghost(Seq::empty());
        let healthy = self.upstream_health;
        let k = String::from_str(key);
        let tier_name = if healthy {
            match self.consumers.get(&k) {
                Some(c) => Some(c.tier().clone()),
                None => None,
            }
        } else {
            None
        };
        let known = tier_name.is_some();
        let (tier_defined, permitted) = match &tier_name {
            Some(name) => match self.tiers.get(name) {
                Some(tier) => {
                    let current = match self.limiters.get(&k) {
                        Some(cascade) => cascade.built_from(tier),
                        None => false,
                    };
                    if !current {
                        let cascade = Cascade::build(tier, Ghost(self.builds@));
                        self.limiters.upsert(k.clone(), cascade);
                        self.builds = Ghost(self.builds@ + 1);
                    }
                    let permitted = match self.limiters.get(&k) {
                        Some(cascade) => {
                            let (granted, answers) = cascade.try_acquire();
                            self.answers = answers;
                            granted
                        },
                        None => false,
                    };
                    (true, permitted)
                },
                None => (false, false),
            },
            None => (false, false),
        };
        let r = outcome_of(healthy, known, tier_defined, permitted);
        assert(r == request_outcome(
            old(self).healthy(),
            old(self).consumers_view().contains_key(key@),
            tier_defined_for(old(self).consumers_view(), old(self).tiers_view(), key@),
            permitted,
        ));
        if r == Outcome::Admitted {
            self.inc_key(&k);
        }
        r
    }

    fn inc_key(&mut self, key: &String)
        requires
            old(self).wf(),
        ensures
            final(self).wf(),
            final(self).consumers_view() == inc_spec(old(self).consumers_view(), key@),
            final(self).tiers_view() == old(self).tiers_view(),
            final(self).cascades_view() == old(self).cascades_view(),
            final(self).builds() == old(self).builds(),
            final(self).last_answers() == old(self).last_answers(),
            final(self).healthy() == old(self).healthy(),
    {
        let next = match self.consumers.get(key) {
            Some(c) => {
                let n = c.active_connections();
                if n < usize::MAX {
                    Some(c.duplicate().with_active_connections(n + 1))
                } else {
                    None
                }
            },
            None => None,
        };
        match next {
            Some(c) => {
                self.consumers.upsert(key.clone(), c);
            },
            None => {},
        }
    }

    fn dec_key(&mut self, key: &String)
        requires
            old(self).wf(),
        ensures
            final(self).wf(),
            final(self).consumers_view() == dec_spec(old(self).consumers_view(), key@),
            final(self).tiers_view() == old(self).tiers_view(),
            final(self).cascades_view() == old(self).cascades_view(),
            final(self).builds() == old(self).builds(),
            final(self).last_answers() == old(self).last_answers(),
            final(self).healthy() == old(self).healthy(),
    {
        let next = match self.consumers.get(key) {
            Some(c) => {
                let n = c.active_connections();
                if n > 0 {
                    Some(c.duplicate().with_active_connections(n - 1))
                } else {
                    None
                }
            },
            None => None,
        };
        match next {
            Some(c) => {
                self.consumers.upsert(key.clone(), c);
            },
            None => {},
        }
    }
}

impl Consumer {
    /// Counts one more live connection for the tenant that holds this key.
    /// A key that is gone, or a count at the largest value, is left as it is.
    pub fn inc_connections(&self, state: &mut State)
        requires
            old(state).wf(),
        ensures
            final(state).wf(),
            final(state).consumers_view() == inc_spec(old(state).consumers_view(), self@.key),
            final(state).tiers_view() == old(state).tiers_view(),
            final(state).cascades_view() == old(state).cascades_view(),
            final(state).healthy() == old(state).healthy(),
    {
        state.inc_key(self.key());
    }

    /// Counts one live connection less for the tenant that holds this key. A
    /// key that is gone is no error, and a count never goes below zero.
    pub fn dec_connections(&self, state: &mut State)
        requires
            old(state).wf(),
        ensures
            final(state).wf(),
            final(state).consumers_view() == dec_spec(old(state).consumers_view(), self@.key),
            final(state).tiers_view() == old(state).tiers_view(),
            final(state).cascades_view() == old(state).cascades_view(),
            final(state).healthy() == old(state).healthy(),
    {
        state.dec_key(self.key());
    }

    /// The live connections of the tenant that holds this key; zero if it is gone.
    pub fn get_active_connections(&self, state: &State) -> (r: usize)
        requires
            state.wf(),
        ensures
            r == connections_of(state.consumers_view(), self@.key),
    {
        match state.consumers.get(self.key()) {
            Some(c) => c.active_connections(),
            None => 0,
        }
    }
}

} // verus!
