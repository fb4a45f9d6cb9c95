//! The dispatcher: classifies inbound requests, plans the fixed responses,
//! and builds the rewritten destination for forwarded requests.
//!
//! Requests are modelled by the two facts the dispatcher reads: whether the
//! method is GET, and the path as bytes. The dispatcher decides, for every
//! request, whether to answer locally (the health check, or not-found) or to
//! forward it to the worker resolved for the route named in the path. The
//! surrounding process carries the decision out over its HTTP transport and
//! maps each failure it meets to the reply planned by [`failure_reply`].

use vstd::prelude::*;

use crate::record::WorkerRecord;
use crate::text::push_all;

verus! {

/// The bytes of `/health`.
pub open spec fn health_path() -> Seq<u8> {
    seq![47u8, 104u8, 101u8, 97u8, 108u8, 116u8, 104u8]
}

/// The bytes of `/proxy/`.
pub open spec fn proxy_prefix() -> Seq<u8> {
    seq![47u8, 112u8, 114u8, 111u8, 120u8, 121u8, 47u8]
}

/// The bytes of `http://`.
pub open spec fn scheme_prefix() -> Seq<u8> {
    seq![104u8, 116u8, 116u8, 112u8, 58u8, 47u8, 47u8]
}

/// The bytes of `{}`, the health check's body.
pub open spec fn health_body() -> Seq<u8> {
    seq![123u8, 125u8]
}

/// The bytes of `Not Found`.
pub open spec fn not_found_body() -> Seq<u8> {
    seq![78u8, 111u8, 116u8, 32u8, 70u8, 111u8, 117u8, 110u8, 100u8]
}

/// The bytes of `Bad Gateway`.
pub open spec fn bad_gateway_body() -> Seq<u8> {
    seq![66u8, 97u8, 100u8, 32u8, 71u8, 97u8, 116u8, 101u8, 119u8, 97u8, 121u8]
}

/// The bytes of `Internal Server Error`.
pub open spec fn internal_error_body() -> Seq<u8> {
    seq![73u8, 110u8, 116u8, 101u8, 114u8, 110u8, 97u8, 108u8, 32u8, 83u8, 101u8, 114u8, 118u8,
        101u8, 114u8, 32u8, 69u8, 114u8, 114u8, 111u8, 114u8]
}

/// True when the request is the health check: method GET, path `/health`.
pub open spec fn is_health_request(is_get: bool, path: Seq<u8>) -> bool {
    is_get && path == health_path()
}

/// True when the path names a route: it starts with `/proxy/`. The route
/// name is everything after the prefix, verbatim — possibly empty.
pub open spec fn is_proxy_path(path: Seq<u8>) -> bool {
    path.len() >= 7 && path.take(7) == proxy_prefix()
}

/// The route name carried by a proxy path: the bytes after `/proxy/`.
pub open spec fn route_of(path: Seq<u8>) -> Seq<u8> {
    path.skip(7)
}

/// A response the dispatcher produces itself, without forwarding.
pub struct HttpReply {
    /// The HTTP status code.
    pub status: u16,
    /// The body, verbatim.
    pub body: Vec<u8>,
}

/// The dispatcher's decision for one inbound request.
pub enum Plan {
    /// Answer locally with this reply; the resolver is not consulted.
    Respond(HttpReply),
    /// Resolve this route name and forward the request to its worker.
    Forward(Vec<u8>),
}

/// Why a proxied request could not be relayed.
#[derive(Clone, Copy, PartialEq, Eq, Structural, Debug)]
pub enum ProxyFailure {
    /// The resolver could not start or confirm a worker for the route.
    ProvisioningFailed,
    /// The forwarded request failed at the transport level after a
    /// successful resolution.
    UpstreamUnreachable,
    /// The rewritten destination could not be made into a request target.
    MalformedDestination,
}

/// The health check's reply: status 200, body `{}`.
pub fn health_reply() -> (r: HttpReply)
    ensures
        r.status == 200,
        r.body@ == health_body(),
{
    let mut body: Vec<u8> = Vec::new();
    body.push(123);
    body.push(125);
    proof {
        assert(body@ =~= health_body());
    }
    HttpReply { status: 200, body }
}

/// The reply for a path that is neither the health check nor a proxy path:
/// status 404, body `Not Found`.
pub fn not_found_reply() -> (r: HttpReply)
    ensures
        r.status == 404,
        r.body@ == not_found_body(),
{
    let mut body: Vec<u8> = Vec::new();
    body.push(78);
    body.push(111);
    body.push(116);
    body.push(32);
    body.push(70);
    body.push(111);
    body.push(117);
    body.push(110);
    body.push(100);
    proof {
        assert(body@ =~= not_found_body());
    }
    HttpReply { status: 404, body }
}

/// The status a proxy failure is surfaced as: 502 for a provisioning or
/// transport failure, 500 for a malformed rewritten destination.
pub open spec fn failure_status(f: ProxyFailure) -> u16 {
    match f {
        ProxyFailure::ProvisioningFailed => 502,
        ProxyFailure::UpstreamUnreachable => 502,
        ProxyFailure::MalformedDestination => 500,
    }
}

/// The body that accompanies a proxy failure.
pub open spec fn failure_body(f: ProxyFailure) -> Seq<u8> {
    match f {
        ProxyFailure::ProvisioningFailed => bad_gateway_body(),
        ProxyFailure::UpstreamUnreachable => bad_gateway_body(),
        ProxyFailure::MalformedDestination => internal_error_body(),
    }
}

/// The reply for a proxied request that failed. Every failure becomes a
/// response for this one request; none ends the serving process.
pub fn failure_reply(f: ProxyFailure) -> (r: HttpReply)
    ensures
        r.status == failure_status(f),
        r.body@ == failure_body(f),
{
    let mut body: Vec<u8> = Vec::new();
    match f {
        ProxyFailure::MalformedDestination => {
            body.push(73);
            body.push(110);
            body.push(116);
            body.push(101);
            body.push(114);
            body.push(110);
            body.push(97);
            body.push(108);
            body.push(32);
            body.push(83);
            body.push(101);
            body.push(114);
            body.push(118);
            body.push(101);
            body.push(114);
            body.push(32);
            body.push(69);
            body.push(114);
            body.push(114);
            body.push(111);
            body.push(114);
            proof {
                assert(body@ =~= internal_error_body());
            }
            HttpReply { status: 500, body }
        },
        _ => {
            body.push(66);
            body.push(97);
            body.push(100);
            body.push(32);
            body.push(71);
            body.push(97);
            body.push(116);
            body.push(101);
            body.push(119);
            body.push(97);
            body.push(121);
            proof {
                assert(body@ =~= bad_gateway_body());
            }
            HttpReply { status: 502, body }
        },
    }
}

/// True exactly when the request is the health check.
fn check_health(is_get: bool, path: &Vec<u8>) -> (r: bool)
    ensures
        r == is_health_request(is_get, path@),
{
    if !is_get {
        return false;
    }
    if path.len() != 7 {
        proof {
            assert(health_path().len() == 7);
        }
        return false;
    }
    let r = path[0] == 47 && path[1] == 104 && path[2] == 101 && path[3] == 97 && path[4] == 108
        && path[5] == 116 && path[6] == 104;
    proof {
        if r {
            assert(path@ =~= health_path());
        }
    }
    r
}

/// Extracts the route name when the path starts with `/proxy/`.
pub fn proxy_route(path: &Vec<u8>) -> (r: Option<Vec<u8>>)
    ensures
        match r {
            Some(route) => is_proxy_path(path@) && route@ == route_of(path@),
            None => !is_proxy_path(path@),
        },
{
    if path.len() < 7 {
        return None;
    }
    let pre = path[0] == 47 && path[1] == 112 && path[2] == 114 && path[3] == 111 && path[4] == 120
        && path[5] == 121 && path[6] == 47;
    if !pre {
        proof {
            if is_proxy_path(path@) {
                assert(path@.take(7)[0] == 47u8);
                assert(path@.take(7)[1] == 112u8);
                assert(path@.take(7)[2] == 114u8);
                assert(path@.take(7)[3] == 111u8);
                assert(path@.take(7)[4] == 120u8);
                assert(path@.take(7)[5] == 121u8);
                assert(path@.take(7)[6] == 47u8);
            }
        }
        return None;
    }
    proof {
        assert(path@.take(7) =~= proxy_prefix());
    }
    let mut route: Vec<u8> = Vec::new();
    let mut i: usize = 7;
    while i < path.len()
        invariant
            7 <= i <= path@.len(),
            route@ == path@.subrange(7, i as int),
        decreases path@.len() - i,
    {
        route.push(path[i]);
        i += 1;
        proof {
            assert(route@ =~= path@.subrange(7, i as int));
        }
    }
    Some(route)
}

/// Classifies one inbound request and plans what to do with it: answer the
/// health check with `{}`, forward a `/proxy/{route}` request to the route's
/// worker, and answer anything else with 404 `Not Found`. Only a forward
/// consults the resolver.
pub fn dispatch(is_get: bool, path: &Vec<u8>) -> (p: Plan)
    ensures
        p is Forward <==> !is_health_request(is_get, path@) && is_proxy_path(path@),
        p matches Plan::Forward(route) ==> route@ == route_of(path@),
        p matches Plan::Respond(rep) ==> {
            if is_health_request(is_get, path@) {
                rep.status == 200 && rep.body@ == health_body()
            } else {
                rep.status == 404 && rep.body@ == not_found_body()
            }
        },
{
    if check_health(is_get, path) {
        return Plan::Respond(health_reply());
    }
    match proxy_route(path) {
        Some(route) => Plan::Forward(route),
        None => Plan::Respond(not_found_reply()),
    }
}

/// The rewritten destination for a forwarded request: scheme and resolved
/// worker address, followed by the original path and query verbatim (the
/// `/proxy/{route}` prefix is kept), or `/` when the request carried no
/// path.
pub open spec fn target_uri(rec: WorkerRecord, pq: Option<Seq<u8>>) -> Seq<u8> {
    scheme_prefix() + rec.rendered() + (match pq {
        Option::Some(s) => s,
        Option::None => seq![47u8],
    })
}

/// Builds the rewritten destination `http://{address}{path and query}`.
pub fn build_target_uri(rec: &WorkerRecord, pq: &Option<Vec<u8>>) -> (r: Vec<u8>)
    ensures
        r@ == target_uri(*rec, match *pq {
            Option::Some(v) => Option::Some(v@),
            Option::None => Option::None,
        }),
{
    let mut out: Vec<u8> = Vec::new();
    out.push(104);
    out.push(116);
    out.push(116);
    out.push(112);
    out.push(58);
    out.push(47);
    out.push(47);
    proof {
        assert(out@ =~= scheme_prefix());
    }
    let host = rec.render();
    push_all(&mut out, &host);
    match pq {
        Option::Some(v) => {
            push_all(&mut out, v);
        },
        Option::None => {
            out.push(47);
            proof {
                assert(out@ =~= scheme_prefix() + rec.rendered() + seq![47u8]);
            }
        },
    }
    out
}

} // verus!
