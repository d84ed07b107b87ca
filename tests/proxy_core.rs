use proxy::consumer::{Consumer, TenantResource};
use proxy::host::{choose_key, resolve_key, HostMatcher};
use proxy::state::{outcome_of, EventKind, Outcome, State, TenantEvent, TierEvent};
use proxy::tier::{Quota, Tier, TierResource};

fn tenant(kind: EventKind, ns: &str, port: &str, tier: &str, token: &str) -> TenantEvent {
    TenantEvent {
        kind,
        resource: TenantResource {
            namespace: Some(ns.to_string()),
            name: port.to_string(),
            tier: tier.to_string(),
            auth_token: Some(token.to_string()),
            network: "mainnet".to_string(),
            version: "v6".to_string(),
        },
    }
}

fn tier(kind: EventKind, name: &str, quotas: Vec<Quota>) -> TierEvent {
    TierEvent { kind, resource: TierResource { name: name.to_string(), quotas } }
}

fn burst(max: usize) -> Quota {
    Quota { max, refill: 1, interval_ms: 3_600_000 }
}

fn ready_state() -> State {
    let mut s = State::try_new().unwrap();
    s.set_health(true);
    s
}

#[test]
fn lookup_returns_record_under_its_key() {
    let mut s = ready_state();
    assert!(s.apply_tenant_event(&tenant(EventKind::Added, "ns1", "port1", "t", "dmtr_key1")));
    let c = s.get_consumer("dmtr_key1").unwrap();
    assert_eq!(c.key(), "dmtr_key1");
    assert_eq!(c.namespace(), "ns1");
    assert_eq!(c.port_name(), "port1");
    assert_eq!(c.tier(), "t");
    assert_eq!(c.network(), "mainnet");
    assert_eq!(c.version(), "v6");
    assert_eq!(c.active_connections(), 0);
    assert!(s.get_consumer("other").is_none());
}

#[test]
fn new_state_is_empty_and_unhealthy() {
    let s = State::try_new().unwrap();
    assert!(!s.is_healthy());
    assert!(s.get_consumer("x").is_none());
}

#[test]
fn display_name_joins_namespace_and_port() {
    let r = tenant(EventKind::Added, "prj-a", "ogmios-1", "t", "k").resource;
    let c = Consumer::from_resource(&r).unwrap();
    assert_eq!(c.display_name(), "prj-a.ogmios-1");
}

#[test]
fn resource_without_token_or_namespace_is_malformed() {
    let mut r = tenant(EventKind::Added, "ns", "p", "t", "k").resource;
    r.auth_token = None;
    assert!(Consumer::from_resource(&r).is_none());
    let mut r2 = tenant(EventKind::Added, "ns", "p", "t", "k").resource;
    r2.namespace = None;
    assert!(Consumer::from_resource(&r2).is_none());
}

#[test]
fn connections_return_after_equal_opens_and_closes() {
    let mut s = ready_state();
    s.apply_tier_event(&tier(EventKind::Added, "t", vec![burst(10)]));
    s.apply_tenant_event(&tenant(EventKind::Added, "ns", "p", "t", "k1"));
    let c = s.get_consumer("k1").unwrap();
    for _ in 0..4 {
        assert_eq!(s.decide_request("k1"), Outcome::Admitted);
    }
    assert_eq!(c.get_active_connections(&s), 4);
    for _ in 0..4 {
        c.dec_connections(&mut s);
    }
    assert_eq!(c.get_active_connections(&s), 0);
    c.dec_connections(&mut s);
    assert_eq!(c.get_active_connections(&s), 0);
}

#[test]
fn inc_and_dec_on_a_gone_key_are_no_ops() {
    let mut s = ready_state();
    s.apply_tenant_event(&tenant(EventKind::Added, "ns", "p", "t", "k1"));
    let c = s.get_consumer("k1").unwrap();
    c.inc_connections(&mut s);
    assert_eq!(c.get_active_connections(&s), 1);
    s.apply_tenant_event(&tenant(EventKind::Deleted, "ns", "p", "t", "k1"));
    c.dec_connections(&mut s);
    c.inc_connections(&mut s);
    assert_eq!(c.get_active_connections(&s), 0);
    assert!(s.get_consumer("k1").is_none());
}

#[test]
fn burst_of_three_admits_exactly_three() {
    let mut s = ready_state();
    s.apply_tier_event(&tier(EventKind::Added, "t", vec![burst(3)]));
    s.apply_tenant_event(&tenant(EventKind::Added, "ns", "p", "t", "k"));
    assert_eq!(s.decide_request("k"), Outcome::Admitted);
    assert_eq!(s.decide_request("k"), Outcome::Admitted);
    assert_eq!(s.decide_request("k"), Outcome::Admitted);
    assert_eq!(s.decide_request("k"), Outcome::RateLimited);
    assert_eq!(s.get_consumer("k").unwrap().active_connections(), 3);
}

#[test]
fn cascade_denies_when_any_bucket_is_empty() {
    let mut s = ready_state();
    s.apply_tier_event(&tier(EventKind::Added, "t", vec![burst(5), burst(2)]));
    s.apply_tenant_event(&tenant(EventKind::Added, "ns", "p", "t", "k"));
    assert_eq!(s.decide_request("k"), Outcome::Admitted);
    assert_eq!(s.decide_request("k"), Outcome::Admitted);
    assert_eq!(s.decide_request("k"), Outcome::RateLimited);
    assert_eq!(s.get_consumer("k").unwrap().active_connections(), 2);
}

#[test]
fn buckets_are_per_tenant() {
    let mut s = ready_state();
    s.apply_tier_event(&tier(EventKind::Added, "t", vec![burst(1)]));
    s.apply_tenant_event(&tenant(EventKind::Added, "ns", "a", "t", "ka"));
    s.apply_tenant_event(&tenant(EventKind::Added, "ns", "b", "t", "kb"));
    assert_eq!(s.decide_request("ka"), Outcome::Admitted);
    assert_eq!(s.decide_request("ka"), Outcome::RateLimited);
    assert_eq!(s.decide_request("kb"), Outcome::Admitted);
}

#[test]
fn tier_change_takes_effect_on_next_request() {
    let mut s = ready_state();
    s.apply_tier_event(&tier(EventKind::Added, "slow", vec![burst(1)]));
    s.apply_tier_event(&tier(EventKind::Added, "fast", vec![burst(5)]));
    s.apply_tenant_event(&tenant(EventKind::Added, "ns", "p", "slow", "k"));
    assert_eq!(s.decide_request("k"), Outcome::Admitted);
    assert_eq!(s.decide_request("k"), Outcome::RateLimited);
    s.apply_tenant_event(&tenant(EventKind::Modified, "ns", "p", "fast", "k"));
    assert_eq!(s.get_consumer("k").unwrap().tier(), "fast");
    assert_eq!(s.decide_request("k"), Outcome::Admitted);
    assert_eq!(s.decide_request("k"), Outcome::Admitted);
}

#[test]
fn tier_quota_change_rebuilds_buckets() {
    let mut s = ready_state();
    s.apply_tier_event(&tier(EventKind::Added, "t", vec![burst(1)]));
    s.apply_tenant_event(&tenant(EventKind::Added, "ns", "p", "t", "k"));
    assert_eq!(s.decide_request("k"), Outcome::Admitted);
    assert_eq!(s.decide_request("k"), Outcome::RateLimited);
    s.apply_tier_event(&tier(EventKind::Modified, "t", vec![burst(2)]));
    assert_eq!(s.decide_request("k"), Outcome::Admitted);
}

#[test]
fn deleted_tier_fails_closed() {
    let mut s = ready_state();
    s.apply_tier_event(&tier(EventKind::Added, "t", vec![burst(5)]));
    s.apply_tenant_event(&tenant(EventKind::Added, "ns", "p", "t", "k"));
    assert_eq!(s.decide_request("k"), Outcome::Admitted);
    assert!(s.apply_tier_event(&tier(EventKind::Deleted, "t", vec![])));
    assert_eq!(s.decide_request("k"), Outcome::TierUndefined);
    assert_eq!(s.get_consumer("k").unwrap().active_connections(), 1);
}

#[test]
fn malformed_tier_is_skipped() {
    let mut s = ready_state();
    assert!(!s.apply_tier_event(&tier(EventKind::Added, "t", vec![])));
    let zero_refill = Quota { max: 3, refill: 0, interval_ms: 1000 };
    assert!(!s.apply_tier_event(&tier(EventKind::Added, "t", vec![zero_refill])));
    let zero_interval = Quota { max: 3, refill: 1, interval_ms: 0 };
    assert!(Tier::from_resource(&TierResource { name: "t".to_string(), quotas: vec![zero_interval] }).is_none());
    s.apply_tenant_event(&tenant(EventKind::Added, "ns", "p", "t", "k"));
    assert_eq!(s.decide_request("k"), Outcome::TierUndefined);
}

#[test]
fn tier_from_resource_keeps_fields() {
    let r = TierResource { name: "gold".to_string(), quotas: vec![burst(4), Quota { max: 9, refill: 2, interval_ms: 500 }] };
    let t = Tier::from_resource(&r).unwrap();
    assert_eq!(t.name(), "gold");
    assert_eq!(t.quotas(), &vec![burst(4), Quota { max: 9, refill: 2, interval_ms: 500 }]);
}

#[test]
fn modify_keeps_live_count_and_replaces_identity() {
    let mut s = ready_state();
    s.apply_tenant_event(&tenant(EventKind::Added, "ns1", "p1", "t", "k"));
    let c = s.get_consumer("k").unwrap();
    c.inc_connections(&mut s);
    c.inc_connections(&mut s);
    s.apply_tenant_event(&tenant(EventKind::Modified, "ns2", "p2", "t2", "k"));
    let after = s.get_consumer("k").unwrap();
    assert_eq!(after.namespace(), "ns2");
    assert_eq!(after.port_name(), "p2");
    assert_eq!(after.tier(), "t2");
    assert_eq!(after.active_connections(), 2);
}

#[test]
fn delete_then_add_resets_count() {
    let mut s = ready_state();
    s.apply_tenant_event(&tenant(EventKind::Added, "ns1", "p1", "t", "k"));
    let c = s.get_consumer("k").unwrap();
    c.inc_connections(&mut s);
    s.apply_tenant_event(&tenant(EventKind::Deleted, "ns1", "p1", "t", "k"));
    s.apply_tenant_event(&tenant(EventKind::Added, "ns2", "p2", "t", "k"));
    let after = s.get_consumer("k").unwrap();
    assert_eq!(after.namespace(), "ns2");
    assert_eq!(after.port_name(), "p2");
    assert_eq!(after.active_connections(), 0);
}

#[test]
fn unhealthy_rejects_every_request() {
    let mut s = ready_state();
    s.apply_tier_event(&tier(EventKind::Added, "t", vec![burst(5)]));
    s.apply_tenant_event(&tenant(EventKind::Added, "ns", "p", "t", "k"));
    s.set_health(false);
    for _ in 0..3 {
        assert_eq!(s.decide_request("k"), Outcome::Unhealthy);
    }
    assert_eq!(s.decide_request("unknown"), Outcome::Unhealthy);
    assert_eq!(s.get_consumer("k").unwrap().active_connections(), 0);
    s.set_health(true);
    assert_eq!(s.decide_request("k"), Outcome::Admitted);
}

#[test]
fn unknown_key_is_auth_rejected() {
    let mut s = ready_state();
    assert_eq!(s.decide_request("nobody"), Outcome::AuthRejected);
}

#[test]
fn malformed_event_between_two_additions_is_skipped() {
    let mut s = ready_state();
    let mut bad = tenant(EventKind::Added, "ns", "bad", "t", "kbad");
    bad.resource.auth_token = None;
    let evs = vec![
        tenant(EventKind::Added, "ns", "a", "t", "ka"),
        bad,
        tenant(EventKind::Added, "ns", "b", "t", "kb"),
    ];
    s.apply_tenant_events(&evs);
    assert_eq!(s.get_consumer("ka").unwrap().port_name(), "a");
    assert_eq!(s.get_consumer("kb").unwrap().port_name(), "b");
}

#[test]
fn malformed_delete_is_skipped() {
    let mut s = ready_state();
    s.apply_tenant_event(&tenant(EventKind::Added, "ns", "a", "t", "ka"));
    let mut del = tenant(EventKind::Deleted, "ns", "a", "t", "ka");
    del.resource.auth_token = None;
    assert!(!s.apply_tenant_event(&del));
    assert!(s.get_consumer("ka").is_some());
}

#[test]
fn key_from_host_name() {
    let s = State::try_new().unwrap();
    let k = s.resolve_key("dmtr_abc123.ogmios.example.com", None);
    assert_eq!(k.as_deref(), Some("dmtr_abc123"));
}

#[test]
fn key_from_header_wins() {
    let s = State::try_new().unwrap();
    let k = s.resolve_key("dmtr_abc123.ogmios.example.com", Some("dmtr_header"));
    assert_eq!(k.as_deref(), Some("dmtr_header"));
    let k2 = s.resolve_key("dmtr_abc123.ogmios.example.com", Some(""));
    assert_eq!(k2.as_deref(), Some("dmtr_abc123"));
}

#[test]
fn outcome_follows_check_order() {
    assert_eq!(outcome_of(false, true, true, true), Outcome::Unhealthy);
    assert_eq!(outcome_of(true, false, true, true), Outcome::AuthRejected);
    assert_eq!(outcome_of(true, true, false, true), Outcome::TierUndefined);
    assert_eq!(outcome_of(true, true, true, false), Outcome::RateLimited);
    assert_eq!(outcome_of(true, true, true, true), Outcome::Admitted);
}

#[test]
fn chosen_key_prefers_non_empty_header() {
    assert_eq!(choose_key(Some("hdr"), Some("cap".to_string())).as_deref(), Some("hdr"));
    assert_eq!(choose_key(Some(""), Some("cap".to_string())).as_deref(), Some("cap"));
    assert_eq!(choose_key(None, Some("cap".to_string())).as_deref(), Some("cap"));
    assert_eq!(choose_key(None, None), None);
}

#[test]
fn host_matcher_compiles_and_captures_leading_label() {
    let m = HostMatcher::new().unwrap();
    assert_eq!(resolve_key(&m, "tenant-7.example.org", None).as_deref(), Some("tenant-7"));
}

#[test]
fn requests_rejected_while_unhealthy_use_no_capacity() {
    let mut s = ready_state();
    s.apply_tier_event(&tier(EventKind::Added, "t", vec![burst(2)]));
    s.apply_tenant_event(&tenant(EventKind::Added, "ns", "p", "t", "k"));
    s.set_health(false);
    for _ in 0..5 {
        assert_eq!(s.decide_request("k"), Outcome::Unhealthy);
    }
    s.set_health(true);
    assert_eq!(s.decide_request("k"), Outcome::Admitted);
    assert_eq!(s.decide_request("k"), Outcome::Admitted);
    assert_eq!(s.decide_request("k"), Outcome::RateLimited);
}

#[test]
fn in_flight_count_survives_modify_then_completes() {
    let mut s = ready_state();
    s.apply_tier_event(&tier(EventKind::Added, "t", vec![burst(5)]));
    s.apply_tenant_event(&tenant(EventKind::Added, "ns1", "p1", "t", "k"));
    assert_eq!(s.decide_request("k"), Outcome::Admitted);
    let c = s.get_consumer("k").unwrap();
    s.apply_tenant_event(&tenant(EventKind::Modified, "ns2", "p2", "t", "k"));
    c.dec_connections(&mut s);
    let after = s.get_consumer("k").unwrap();
    assert_eq!(after.active_connections(), 0);
    assert_eq!(after.namespace(), "ns2");
}
