use vstd::prelude::*;
use crate::consumer::{ConsumerV, resource_consumer, with_connections};
use crate::state::{
    EventKind, TenantEvent, apply_tenant_seq, apply_tenant_spec, dec_spec, inc_spec,
    set_connections, tenant_event_valid,
};

verus! {

/// The tenants after `n` increments of the count of `k`.
pub open spec fn inc_n(m: Map<Seq<char>, ConsumerV>, k: Seq<char>, n: nat) -> Map<
    Seq<char>,
    ConsumerV,
>
    decreases n,
{
    if n == 0 {
        m
    } else {
        inc_spec(inc_n(m, k, (n - 1) as nat), k)
    }
}

/// The tenants after `n` decrements of the count of `k`.
pub open spec fn dec_n(m: Map<Seq<char>, ConsumerV>, k: Seq<char>, n: nat) -> Map<
    Seq<char>,
    ConsumerV,
>
    decreases n,
{
    if n == 0 {
        m
    } else {
        dec_spec(dec_n(m, k, (n - 1) as nat), k)
    }
}

proof fn lemma_set_same(m: Map<Seq<char>, ConsumerV>, k: Seq<char>)
    ensures
        set_connections(m, k, if m.contains_key(k) { m[k].active_connections } else { 0 }) == m,
{
    if m.contains_key(k) {
        assert(with_connections(m[k], m[k].active_connections) == m[k]);
        assert(m.insert(k, m[k]) =~= m);
    }
}

proof fn lemma_inc_n(m: Map<Seq<char>, ConsumerV>, k: Seq<char>, n: nat)
    requires
        m.contains_key(k),
        m[k].active_connections + n <= usize::MAX,
    ensures
        inc_n(m, k, n) == set_connections(m, k, m[k].active_connections + n),
    decreases n,
{
    if n == 0 {
        lemma_set_same(m, k);
    } else {
        lemma_inc_n(m, k, (n - 1) as nat);
        let prev = inc_n(m, k, (n - 1) as nat);
        assert(prev.insert(k, with_connections(prev[k], m[k].active_connections + n)) =~= m.insert(
            k,
            with_connections(m[k], m[k].active_connections + n),
        ));
    }
}

proof fn lemma_dec_n(m: Map<Seq<char>, ConsumerV>, k: Seq<char>, n: nat)
    requires
        m.contains_key(k),
        m[k].active_connections >= n,
    ensures
        dec_n(m, k, n) == set_connections(m, k, (m[k].active_connections - n) as nat),
    decreases n,
{
    if n == 0 {
        lemma_set_same(m, k);
    } else {
        lemma_dec_n(m, k, (n - 1) as nat);
        let prev = dec_n(m, k, (n - 1) as nat);
        assert(prev.insert(k, with_connections(prev[k], (m[k].active_connections - n) as nat))
            =~= m.insert(k, with_connections(m[k], (m[k].active_connections - n) as nat)));
    }
}

proof fn lemma_absent_unchanged(m: Map<Seq<char>, ConsumerV>, k: Seq<char>, n: nat)
    requires
        !m.contains_key(k),
    ensures
        inc_n(m, k, n) == m,
        dec_n(m, k, n) == m,
    decreases n,
{
    if n > 0 {
        lemma_absent_unchanged(m, k, (n - 1) as nat);
    }
}

/// `n` connections opened and then `n` closed for one tenant leave the tenants
/// as they were, where the count stays within `usize` throughout.
pub proof fn lemma_connections_return(m: Map<Seq<char>, ConsumerV>, k: Seq<char>, n: nat)
    requires
        m.contains_key(k) ==> m[k].active_connections + n <= usize::MAX,
    ensures
        dec_n(inc_n(m, k, n), k, n) == m,
{
    if m.contains_key(k) {
        lemma_inc_n(m, k, n);
        let up = inc_n(m, k, n);
        assert(up.contains_key(k));
        lemma_dec_n(up, k, n);
        assert(set_connections(up, k, m[k].active_connections) =~= set_connections(
            m,
            k,
            m[k].active_connections,
        ));
        lemma_set_same(m, k);
    } else {
        lemma_absent_unchanged(m, k, n);
    }
}

/// Closing a connection never takes a count below zero: a tenant with no live
/// connection keeps a count of zero.
pub proof fn lemma_close_at_zero(m: Map<Seq<char>, ConsumerV>, k: Seq<char>)
    requires
        m.contains_key(k),
        m[k].active_connections == 0,
    ensures
        dec_spec(m, k) == m,
{
}

/// A modification of a tenant stores its new fields, the tier among them, and
/// keeps the live connection count that its key had.
pub proof fn lemma_modify_replaces_fields(m: Map<Seq<char>, ConsumerV>, ev: TenantEvent)
    requires
        ev.kind == EventKind::Modified,
        resource_consumer(ev.resource).is_some(),
    ensures
        ({
            let c = resource_consumer(ev.resource).unwrap();
            let after = apply_tenant_spec(m, ev);
            &&& after.contains_key(c.key)
            &&& after[c.key] == with_connections(
                c,
                if m.contains_key(c.key) {
                    m[c.key].active_connections
                } else {
                    0
                },
            )
            &&& after[c.key].tier == c.tier
        }),
{
    let c = resource_consumer(ev.resource).unwrap();
    if !m.contains_key(c.key) {
        assert(with_connections(c, 0) == c);
    }
}

/// A deletion followed by an addition under the same key gives a record that
/// is the added one, with no connection counted.
pub proof fn lemma_delete_then_add_resets(
    m: Map<Seq<char>, ConsumerV>,
    del: TenantEvent,
    add: TenantEvent,
)
    requires
        del.kind == EventKind::Deleted,
        add.kind == EventKind::Added,
        resource_consumer(add.resource).is_some(),
        del.resource.auth_token matches Some(t) && t@ == resource_consumer(add.resource).unwrap().key,
    ensures
        ({
            let c = resource_consumer(add.resource).unwrap();
            let after = apply_tenant_seq(m, seq![del, add]);
            &&& after.contains_key(c.key)
            &&& after[c.key] == c
            &&& after[c.key].active_connections == 0
        }),
{
    let s = seq![del, add];
    assert(s.drop_last() =~= seq![del]);
    assert(seq![del].drop_last() =~= Seq::<TenantEvent>::empty());
    let c = resource_consumer(add.resource).unwrap();
    let m1 = apply_tenant_seq(m, seq![del]);
    assert(m1 == apply_tenant_spec(apply_tenant_seq(m, Seq::<TenantEvent>::empty()), del));
    assert(m1 == m.remove(c.key));
    assert(!m1.contains_key(c.key));
    assert(apply_tenant_seq(m, s) == apply_tenant_spec(m1, add));
}

/// A malformed event between two well-formed additions is skipped: both
/// tenants are present after the stream.
pub proof fn lemma_malformed_event_skipped(
    m: Map<Seq<char>, ConsumerV>,
    a: TenantEvent,
    bad: TenantEvent,
    b: TenantEvent,
)
    requires
        a.kind == EventKind::Added,
        b.kind == EventKind::Added,
        resource_consumer(a.resource).is_some(),
        resource_consumer(b.resource).is_some(),
        !tenant_event_valid(bad),
    ensures
        ({
            let after = apply_tenant_seq(m, seq![a, bad, b]);
            &&& after.contains_key(resource_consumer(a.resource).unwrap().key)
            &&& after.contains_key(resource_consumer(b.resource).unwrap().key)
        }),
{
    let s = seq![a, bad, b];
    assert(s.drop_last() =~= seq![a, bad]);
    assert(seq![a, bad].drop_last() =~= seq![a]);
    assert(seq![a].drop_last() =~= Seq::<TenantEvent>::empty());
    let ka = resource_consumer(a.resource).unwrap().key;
    let kb = resource_consumer(b.resource).unwrap().key;
    let m1 = apply_tenant_seq(m, seq![a]);
    assert(m1 == apply_tenant_spec(apply_tenant_seq(m, Seq::<TenantEvent>::empty()), a));
    assert(m1.contains_key(ka));
    let m2 = apply_tenant_seq(m, seq![a, bad]);
    assert(m2 == apply_tenant_spec(m1, bad));
    assert(m2 == m1);
    let m3 = apply_tenant_seq(m, s);
    assert(m3 == apply_tenant_spec(m2, b));
    assert(m3.contains_key(kb));
    assert(m3.contains_key(ka));
}

/// A connection opened before a modification of its tenant and closed after
/// it leaves the count where it was before the connection, with the
/// modification's new fields in place.
pub proof fn lemma_in_flight_across_modify(
    m: Map<Seq<char>, ConsumerV>,
    ev: TenantEvent,
)
    requires
        ev.kind == EventKind::Modified,
        resource_consumer(ev.resource).is_some(),
        m.contains_key(resource_consumer(ev.resource).unwrap().key),
        m[resource_consumer(ev.resource).unwrap().key].active_connections < usize::MAX,
    ensures
        ({
            let c = resource_consumer(ev.resource).unwrap();
            let after = dec_spec(apply_tenant_spec(inc_spec(m, c.key), ev), c.key);
            &&& after.contains_key(c.key)
            &&& after[c.key] == with_connections(c, m[c.key].active_connections)
        }),
{
}

/// How many opens a run of connection events holds (`true` opens, `false`
/// closes).
pub open spec fn opens(ops: Seq<bool>) -> nat
    decreases ops.len(),
{
    if ops.len() == 0 {
        0
    } else {
        opens(ops.drop_last()) + if ops.last() {
            1nat
        } else {
            0nat
        }
    }
}

/// The tenants after a run of connection events for `k`, in order.
pub open spec fn run_connections(m: Map<Seq<char>, ConsumerV>, k: Seq<char>, ops: Seq<bool>) -> Map<
    Seq<char>,
    ConsumerV,
>
    decreases ops.len(),
{
    if ops.len() == 0 {
        m
    } else {
        let prev = run_connections(m, k, ops.drop_last());
        if ops.last() {
            inc_spec(prev, k)
        } else {
            dec_spec(prev, k)
        }
    }
}

/// In every prefix of the run, the closes are at most the opens.
pub open spec fn closes_follow_opens(ops: Seq<bool>) -> bool {
    forall|i: int| 0 <= i <= ops.len() ==> i <= 2 * opens(#[trigger] ops.take(i))
}

proof fn lemma_opens_bound(ops: Seq<bool>)
    ensures
        opens(ops) <= ops.len(),
    decreases ops.len(),
{
    if ops.len() > 0 {
        lemma_opens_bound(ops.drop_last());
    }
}

/// Along a run in which every close follows its open, the count of `k` is its
/// starting value plus the opens less the closes, so it never goes below
/// zero, where the count stays within `usize` throughout.
pub proof fn lemma_connection_run(m: Map<Seq<char>, ConsumerV>, k: Seq<char>, ops: Seq<bool>)
    requires
        m.contains_key(k),
        closes_follow_opens(ops),
        m[k].active_connections + opens(ops) <= usize::MAX,
    ensures
        run_connections(m, k, ops).contains_key(k),
        run_connections(m, k, ops)[k] == with_connections(
            m[k],
            (m[k].active_connections + 2 * opens(ops) - ops.len()) as nat,
        ),
        m[k].active_connections + 2 * opens(ops) - ops.len() >= 0,
    decreases ops.len(),
{
    assert(ops.take(ops.len() as int) =~= ops);
    assert(ops.len() <= 2 * opens(ops.take(ops.len() as int)));
    if ops.len() == 0 {
        assert(with_connections(m[k], m[k].active_connections) == m[k]);
    } else {
        let p = ops.drop_last();
        assert forall|i: int| 0 <= i <= p.len() implies i <= 2 * opens(#[trigger] p.take(i)) by {
            assert(p.take(i) =~= ops.take(i));
        }
        lemma_connection_run(m, k, p);
        lemma_opens_bound(p);
        let prev = run_connections(m, k, p);
        let a = m[k].active_connections;
        let before = a + 2 * opens(p) - p.len();
        assert(prev[k].active_connections == before);
        if ops.last() {
            assert(opens(ops) == opens(p) + 1);
            assert(before < usize::MAX);
            assert(run_connections(m, k, ops) == inc_spec(prev, k));
        } else {
            assert(opens(ops) == opens(p));
            assert(before > 0);
            assert(run_connections(m, k, ops) == dec_spec(prev, k));
        }
    }
}

} // verus!
