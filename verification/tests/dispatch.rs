use lazyproxy::dispatch::{build_target_uri, dispatch, failure_reply, proxy_route, Plan, ProxyFailure};
use lazyproxy::record::WorkerRecord;
use lazyproxy::resolver::{Resolver, Step};

fn rec(port: u16) -> WorkerRecord {
    WorkerRecord { ip0: 127, ip1: 0, ip2: 0, ip3: 1, port }
}

#[test]
fn health_returns_200_empty_object() {
    let path = b"/health".to_vec();
    match dispatch(true, &path) {
        Plan::Respond(rep) => {
            assert_eq!(rep.status, 200);
            assert_eq!(rep.body, b"{}".to_vec());
        }
        Plan::Forward(_) => panic!("health must be answered locally"),
    }
}

#[test]
fn health_ignores_resolver_state() {
    // The health reply is the same whatever the resolver has seen.
    let mut r = Resolver::new();
    let route = b"alpha".to_vec();
    assert_eq!(r.begin(&route), Step::Provision);
    r.complete(&route, rec(5000));
    let path = b"/health".to_vec();
    match dispatch(true, &path) {
        Plan::Respond(rep) => {
            assert_eq!(rep.status, 200);
            assert_eq!(rep.body, b"{}".to_vec());
        }
        Plan::Forward(_) => panic!("health must be answered locally"),
    }
}

#[test]
fn non_get_health_is_not_found() {
    let path = b"/health".to_vec();
    match dispatch(false, &path) {
        Plan::Respond(rep) => {
            assert_eq!(rep.status, 404);
            assert_eq!(rep.body, b"Not Found".to_vec());
        }
        Plan::Forward(_) => panic!("only /proxy/ paths are forwarded"),
    }
}

#[test]
fn unknown_path_is_not_found() {
    let path = b"/unknown/path".to_vec();
    match dispatch(true, &path) {
        Plan::Respond(rep) => {
            assert_eq!(rep.status, 404);
            assert_eq!(rep.body, b"Not Found".to_vec());
        }
        Plan::Forward(_) => panic!("only /proxy/ paths are forwarded"),
    }
}

#[test]
fn proxy_path_is_forwarded_with_its_route() {
    let path = b"/proxy/alpha".to_vec();
    match dispatch(false, &path) {
        Plan::Forward(route) => assert_eq!(route, b"alpha".to_vec()),
        Plan::Respond(_) => panic!("proxy paths are forwarded"),
    }
}

#[test]
fn bare_proxy_prefix_names_the_empty_route() {
    let path = b"/proxy/".to_vec();
    match dispatch(true, &path) {
        Plan::Forward(route) => assert_eq!(route, Vec::<u8>::new()),
        Plan::Respond(_) => panic!("proxy paths are forwarded"),
    }
    assert_eq!(proxy_route(&b"/proxy".to_vec()), None);
    assert_eq!(proxy_route(&b"/prox/alpha".to_vec()), None);
    assert_eq!(
        proxy_route(&b"/proxy/a/b?q=1".to_vec()),
        Some(b"a/b?q=1".to_vec())
    );
}

#[test]
fn first_proxy_request_provisions_exactly_once_and_targets_the_worker() {
    // A request to /proxy/alpha with no worker yet: the dispatcher forwards,
    // the resolver provisions exactly once, and the rewritten destination
    // points at the provisioned worker with the full original path.
    let mut r = Resolver::new();
    let path = b"/proxy/alpha".to_vec();
    let route = match dispatch(false, &path) {
        Plan::Forward(route) => route,
        Plan::Respond(_) => panic!("proxy paths are forwarded"),
    };
    assert_eq!(r.begin(&route), Step::Provision);
    let w = rec(8080);
    r.complete(&route, w);
    assert_eq!(r.begin(&route), Step::Resolved(w));
    let uri = build_target_uri(&w, &Some(path.clone()));
    assert_eq!(uri, b"http://127.0.0.1:8080/proxy/alpha".to_vec());
    // A second request reuses the same worker: still one provisioning.
    assert_eq!(r.begin(&route), Step::Resolved(w));
}

#[test]
fn failure_replies_are_502_class_or_500() {
    let p = failure_reply(ProxyFailure::ProvisioningFailed);
    assert_eq!(p.status, 502);
    assert_eq!(p.body, b"Bad Gateway".to_vec());
    let u = failure_reply(ProxyFailure::UpstreamUnreachable);
    assert_eq!(u.status, 502);
    assert_eq!(u.body, b"Bad Gateway".to_vec());
    let m = failure_reply(ProxyFailure::MalformedDestination);
    assert_eq!(m.status, 500);
    assert_eq!(m.body, b"Internal Server Error".to_vec());
}

#[test]
fn target_uri_preserves_path_and_query() {
    let w = rec(8080);
    let uri = build_target_uri(&w, &Some(b"/proxy/alpha?x=1&y=2".to_vec()));
    assert_eq!(uri, b"http://127.0.0.1:8080/proxy/alpha?x=1&y=2".to_vec());
    let bare = build_target_uri(&w, &None);
    assert_eq!(bare, b"http://127.0.0.1:8080/".to_vec());
}

#[test]
fn record_renders_as_dotted_quad_and_port() {
    let w = WorkerRecord { ip0: 127, ip1: 0, ip2: 0, ip3: 1, port: 3000 };
    assert_eq!(w.render(), b"127.0.0.1:3000".to_vec());
    let z = WorkerRecord { ip0: 0, ip1: 0, ip2: 0, ip3: 0, port: 0 };
    assert_eq!(z.render(), b"0.0.0.0:0".to_vec());
    let m = WorkerRecord { ip0: 255, ip1: 255, ip2: 255, ip3: 255, port: 65535 };
    assert_eq!(m.render(), b"255.255.255.255:65535".to_vec());
}
