use lazyproxy::record::WorkerRecord;
use lazyproxy::resolver::{Resolver, Step};

fn rec(port: u16) -> WorkerRecord {
    WorkerRecord { ip0: 127, ip1: 0, ip2: 0, ip3: 1, port }
}

#[test]
fn first_resolve_provisions_once() {
    let mut r = Resolver::new();
    let alpha = b"alpha".to_vec();
    assert_eq!(r.begin(&alpha), Step::Provision);
    // Concurrent first-time callers arriving before the outcome all wait.
    assert_eq!(r.begin(&alpha), Step::Wait);
    assert_eq!(r.begin(&alpha), Step::Wait);
    let w = rec(4100);
    r.complete(&alpha, w);
    assert_eq!(r.begin(&alpha), Step::Resolved(w));
}

#[test]
fn resolve_is_idempotent() {
    let mut r = Resolver::new();
    let alpha = b"alpha".to_vec();
    assert_eq!(r.begin(&alpha), Step::Provision);
    let w = rec(4200);
    r.complete(&alpha, w);
    // Every later call returns the identical record and starts no new
    // provisioning attempt.
    for _ in 0..10 {
        assert_eq!(r.begin(&alpha), Step::Resolved(w));
        assert!(!r.provisioning_in_flight(&alpha));
    }
}

#[test]
fn distinct_routes_do_not_block_each_other() {
    let mut r = Resolver::new();
    let r1 = b"one".to_vec();
    let r2 = b"two".to_vec();
    // While r1 is still provisioning, r2's first caller is told to
    // provision at once, and may even finish first.
    assert_eq!(r.begin(&r1), Step::Provision);
    assert_eq!(r.begin(&r2), Step::Provision);
    let w2 = rec(4302);
    r.complete(&r2, w2);
    assert_eq!(r.begin(&r2), Step::Resolved(w2));
    assert!(r.provisioning_in_flight(&r1));
    let w1 = rec(4301);
    r.complete(&r1, w1);
    assert_eq!(r.begin(&r1), Step::Resolved(w1));
    assert_eq!(r.begin(&r2), Step::Resolved(w2));
}

#[test]
fn failure_reverts_route_and_allows_retry() {
    let mut r = Resolver::new();
    let alpha = b"alpha".to_vec();
    assert_eq!(r.begin(&alpha), Step::Provision);
    assert_eq!(r.begin(&alpha), Step::Wait);
    r.fail(&alpha);
    // No poisoning: the next caller provisions afresh.
    assert_eq!(r.begin(&alpha), Step::Provision);
    let w = rec(4400);
    r.complete(&alpha, w);
    assert_eq!(r.begin(&alpha), Step::Resolved(w));
}

#[test]
fn empty_route_name_is_an_ordinary_key() {
    let mut r = Resolver::new();
    let empty = Vec::new();
    let named = b"x".to_vec();
    assert_eq!(r.begin(&empty), Step::Provision);
    let w = rec(4500);
    r.complete(&empty, w);
    assert_eq!(r.begin(&empty), Step::Resolved(w));
    // The empty name is distinct from every other name.
    assert_eq!(r.begin(&named), Step::Provision);
}

#[test]
fn fifty_concurrent_callers_one_provisioning() {
    let mut r = Resolver::new();
    let route = b"team-x".to_vec();
    // Fifty callers race on an unseen route: the interleaving of their
    // first steps is some sequence of atomic begin calls.
    let mut provisions = 0;
    let mut waiters = 0;
    for _ in 0..50 {
        match r.begin(&route) {
            Step::Provision => provisions += 1,
            Step::Wait => waiters += 1,
            Step::Resolved(_) => panic!("route cannot be resolved yet"),
        }
    }
    assert_eq!(provisions, 1);
    assert_eq!(waiters, 49);
    // The single provisioner reports success; every caller then observes
    // the one published record.
    let w = rec(4600);
    r.complete(&route, w);
    for _ in 0..50 {
        assert_eq!(r.begin(&route), Step::Resolved(w));
    }
}
