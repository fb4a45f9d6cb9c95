//! The route-to-worker resolver.
//!
//! The resolver owns the map from route names to their resolution state and
//! enforces the singleflight discipline: for any route, at most one
//! provisioning attempt is in flight at a time, and once a route is resolved
//! its worker record never changes.
//!
//! The resolver itself is a sequential state machine. The surrounding
//! process serialises access to it (a short critical section around each
//! method call) and performs the actual provisioning outside that section;
//! because every method here is atomic with respect to the map, any
//! interleaving of concurrent callers is a sequence of these transitions.
//! A caller first calls [`Resolver::begin`]; if it is told to provision it
//! later reports the outcome through [`Resolver::complete`] or
//! [`Resolver::fail`].

use vstd::prelude::*;

use crate::record::WorkerRecord;
use crate::text::bytes_eq;
use crate::text::copy_bytes;

verus! {

/// The resolution state of one route.
#[derive(Clone, Copy, PartialEq, Eq, Structural, Debug)]
pub enum RouteState {
    /// A provisioning attempt for this route is in flight.
    Provisioning,
    /// The route is resolved to an immutable worker record.
    Resolved(WorkerRecord),
}

/// What a caller of [`Resolver::begin`] must do next.
#[derive(Clone, Copy, PartialEq, Eq, Structural, Debug)]
pub enum Step {
    /// The route is already resolved: use this record, no further work.
    Resolved(WorkerRecord),
    /// Another caller is provisioning this route: wait for its outcome.
    Wait,
    /// This caller won the race: it alone must provision the route and then
    /// report through [`Resolver::complete`] or [`Resolver::fail`].
    Provision,
}

struct RouteEntry {
    name: Vec<u8>,
    state: RouteState,
}

/// The shared route map. A route absent from the map is *Unknown*: it has no
/// record and no provisioning in flight.
pub struct Resolver {
    entries: Vec<RouteEntry>,
}

impl Resolver {
    /// Route names are unique keys: no two entries name the same route.
    pub closed spec fn wf(self) -> bool {
        forall|i: int, j: int|
            0 <= i < j < self.entries@.len() ==> self.entries@[i].name@ != self.entries@[j].name@
    }

    /// True when the route is known: resolved, or being provisioned.
    pub closed spec fn has_route(self, name: Seq<u8>) -> bool {
        exists|i: int| 0 <= i < self.entries@.len() && self.entries@[i].name@ == name
    }

    closed spec fn idx_of(self, name: Seq<u8>) -> int {
        choose|i: int| 0 <= i < self.entries@.len() && self.entries@[i].name@ == name
    }

    /// The state of a known route.
    pub closed spec fn route_state(self, name: Seq<u8>) -> RouteState {
        self.entries@[self.idx_of(name)].state
    }

    /// True when the route is resolved to `rec`.
    pub open spec fn resolved_to(self, name: Seq<u8>, rec: WorkerRecord) -> bool {
        self.has_route(name) && self.route_state(name) == RouteState::Resolved(rec)
    }

    /// True when a provisioning attempt for the route is in flight.
    pub open spec fn is_provisioning(self, name: Seq<u8>) -> bool {
        self.has_route(name) && self.route_state(name) == RouteState::Provisioning
    }

    proof fn lemma_witness(self, name: Seq<u8>, i: int)
        requires
            self.wf(),
            0 <= i < self.entries@.len(),
            self.entries@[i].name@ == name,
        ensures
            self.has_route(name),
            self.idx_of(name) == i,
            self.route_state(name) == self.entries@[i].state,
    {
        assert(self.has_route(name));
        let k = self.idx_of(name);
        assert(0 <= k < self.entries@.len() && self.entries@[k].name@ == name);
        if k < i {
            assert(self.entries@[k].name@ != self.entries@[i].name@);
        } else if i < k {
            assert(self.entries@[i].name@ != self.entries@[k].name@);
        }
    }

    /// An empty resolver: every route is unknown.
    pub fn new() -> (r: Resolver)
        ensures
            r.wf(),
            forall|n: Seq<u8>| !r.has_route(n),
    {
        Resolver { entries: Vec::new() }
    }

    fn find(&self, name: &Vec<u8>) -> (r: Option<usize>)
        ensures
            match r {
                Some(i) => i < self.entries@.len() && self.entries@[i as int].name@ == name@,
                None => forall|j: int|
                    0 <= j < self.entries@.len() ==> self.entries@[j].name@ != name@,
            },
    {
        let mut i: usize = 0;
        while i < self.entries.len()
            invariant
                i <= self.entries@.len(),
                forall|j: int| 0 <= j < i ==> self.entries@[j].name@ != name@,
            decreases self.entries@.len() - i,
        {
            if bytes_eq(&self.entries[i].name, name) {
                return Some(i);
            }
            i += 1;
        }
        None
    }

    /// True when a provisioning attempt for the route is currently in
    /// flight. Lets the caller that provisions check its own bookkeeping
    /// before reporting an outcome.
    pub fn provisioning_in_flight(&self, name: &Vec<u8>) -> (r: bool)
        requires
            self.wf(),
        ensures
            r == self.is_provisioning(name@),
    {
        match self.find(name) {
            Some(i) => {
                proof {
                    self.lemma_witness(name@, i as int);
                }
                match self.entries[i].state {
                    RouteState::Provisioning => true,
                    RouteState::Resolved(_) => false,
                }
            },
            None => false,
        }
    }

    /// The first step of resolving a route, taken atomically on the map.
    ///
    /// If the route is resolved, the stored record is returned at once and
    /// nothing changes. If it is being provisioned, the caller is told to
    /// wait and nothing changes. Only if the route is unknown does the map
    /// change: the route becomes *Provisioning* and this one caller is told
    /// to provision it.
    pub fn begin(&mut self, name: &Vec<u8>) -> (step: Step)
        requires
            old(self).wf(),
        ensures
            begin_post(*old(self), *final(self), name@, step),
    {
        match self.find(name) {
            Some(i) => {
                proof {
                    self.lemma_witness(name@, i as int);
                }
                match self.entries[i].state {
                    RouteState::Resolved(rec) => Step::Resolved(rec),
                    RouteState::Provisioning => Step::Wait,
                }
            },
            None => {
                let entry = RouteEntry { name: copy_bytes(name), state: RouteState::Provisioning };
                self.entries.push(entry);
                proof {
                    let post = *self;
                    let pre = *old(self);
                    let last = pre.entries@.len() as int;
                    assert(post.wf());
                    post.lemma_witness(name@, last);
                    assert forall|n: Seq<u8>| n != name@ implies (#[trigger] post.has_route(n))
                        == pre.has_route(n) && (pre.has_route(n) ==> post.route_state(n)
                        == pre.route_state(n)) by {
                        if pre.has_route(n) {
                            let w = pre.idx_of(n);
                            assert(pre.entries@[w].name@ == n);
                            assert(post.entries@[w].name@ == n);
                            pre.lemma_witness(n, w);
                            post.lemma_witness(n, w);
                        }
                        if post.has_route(n) {
                            let w = post.idx_of(n);
                            assert(post.entries@[w].name@ == n);
                            assert(w != last);
                            assert(pre.entries@[w].name@ == n);
                            assert(pre.has_route(n));
                        }
                    }
                }
                Step::Provision
            },
        }
    }

    /// Records a successful provisioning attempt: the route, until now
    /// *Provisioning*, becomes *Resolved* with the given record, which every
    /// waiter and every later caller will observe. No other route changes.
    pub fn complete(&mut self, name: &Vec<u8>, rec: WorkerRecord)
        requires
            old(self).wf(),
            old(self).is_provisioning(name@),
        ensures
            complete_post(*old(self), *final(self), name@, rec),
    {
        proof {
            let pre = *old(self);
            let w = pre.idx_of(name@);
            assert(pre.entries@[w].name@ == name@);
        }
        match self.find(name) {
            Some(i) => {
                self.entries[i].state = RouteState::Resolved(rec);
                proof {
                    let pre = *old(self);
                    let post = *self;
                    assert(post.entries@ == pre.entries@.update(
                        i as int,
                        RouteEntry { name: pre.entries@[i as int].name, state: RouteState::Resolved(rec) },
                    ));
                    assert(forall|k: int|
                        0 <= k < post.entries@.len() ==> post.entries@[k].name@
                            == pre.entries@[k].name@);
                    assert(post.wf());
                    post.lemma_witness(name@, i as int);
                    lemma_same_names_frame(pre, post, i as int);
                }
            },
            None => {
                proof {
                    assert(false);
                }
            },
        }
    }

    /// Records a failed provisioning attempt: the *Provisioning* marker is
    /// removed, so the route reverts to unknown and a later call may retry.
    /// No other route changes.
    pub fn fail(&mut self, name: &Vec<u8>)
        requires
            old(self).wf(),
            old(self).is_provisioning(name@),
        ensures
            fail_post(*old(self), *final(self), name@),
    {
        proof {
            let pre = *old(self);
            let w = pre.idx_of(name@);
            assert(pre.entries@[w].name@ == name@);
        }
        match self.find(name) {
            Some(i) => {
                self.entries.remove(i);
                proof {
                    let pre = *old(self);
                    let post = *self;
                    assert(post.entries@ == pre.entries@.remove(i as int));
                    pre.entries@.remove_ensures(i as int);
                    assert forall|a: int, b: int|
                        0 <= a < b < post.entries@.len() implies post.entries@[a].name@
                        != post.entries@[b].name@ by {
                        let pa: int = if a < i as int { a } else { a + 1 };
                        let pb: int = if b < i as int { b } else { b + 1 };
                        assert(post.entries@[a] == pre.entries@[pa]);
                        assert(post.entries@[b] == pre.entries@[pb]);
                    }
                    assert(!post.has_route(name@)) by {
                        if post.has_route(name@) {
                            let w = choose|w: int|
                                0 <= w < post.entries@.len() && post.entries@[w].name@ == name@;
                            let pw: int = if w < i as int { w } else { w + 1 };
                            assert(post.entries@[w] == pre.entries@[pw]);
                            assert(pre.entries@[pw].name@ == name@);
                            pre.lemma_witness(name@, pw);
                            pre.lemma_witness(name@, i as int);
                        }
                    }
                    assert forall|n: Seq<u8>| n != name@ implies (#[trigger] post.has_route(n))
                        == pre.has_route(n) && (pre.has_route(n) ==> post.route_state(n)
                        == pre.route_state(n)) by {
                        if pre.has_route(n) {
                            let w = pre.idx_of(n);
                            assert(pre.entries@[w].name@ == n);
                            assert(w != i as int);
                            let nw: int = if w < i as int { w } else { w - 1 };
                            assert(post.entries@[nw] == pre.entries@[w]);
                            pre.lemma_witness(n, w);
                            post.lemma_witness(n, nw);
                        }
                        if post.has_route(n) {
                            let w = post.idx_of(n);
                            assert(post.entries@[w].name@ == n);
                            let pw: int = if w < i as int { w } else { w + 1 };
                            assert(pre.entries@[pw] == post.entries@[w]);
                            assert(pre.has_route(n));
                        }
                    }
                }
            },
            None => {
                proof {
                    assert(false);
                }
            },
        }
    }
}

/// No route other than `except` changes between `pre` and `post`.
pub open spec fn frame(pre: Resolver, post: Resolver, except: Seq<u8>) -> bool {
    forall|n: Seq<u8>|
        n != except ==> (#[trigger] post.has_route(n)) == pre.has_route(n) && (pre.has_route(n)
            ==> post.route_state(n) == pre.route_state(n))
}

/// Exactly what one call of [`Resolver::begin`] does, relating the map
/// before (`pre`) and after (`post`), the route, and the returned step.
pub open spec fn begin_post(pre: Resolver, post: Resolver, name: Seq<u8>, step: Step) -> bool {
    &&& post.wf()
    &&& post.has_route(name)
    &&& match step {
        Step::Resolved(rec) => pre.resolved_to(name, rec) && post == pre,
        Step::Wait => pre.is_provisioning(name) && post == pre,
        Step::Provision => !pre.has_route(name) && post.is_provisioning(name),
    }
    &&& frame(pre, post, name)
}

/// Exactly what one call of [`Resolver::complete`] does.
pub open spec fn complete_post(pre: Resolver, post: Resolver, name: Seq<u8>, rec: WorkerRecord) -> bool {
    &&& post.wf()
    &&& post.resolved_to(name, rec)
    &&& frame(pre, post, name)
}

/// Exactly what one call of [`Resolver::fail`] does.
pub open spec fn fail_post(pre: Resolver, post: Resolver, name: Seq<u8>) -> bool {
    &&& post.wf()
    &&& !post.has_route(name)
    &&& frame(pre, post, name)
}

/// Singleflight: once one caller of [`Resolver::begin`] has been told to
/// provision a route, every further `begin` for that route — before the
/// outcome is reported — is told to wait, never to provision again. So for
/// any route, any number of concurrent first-time callers start exactly one
/// provisioning attempt.
pub proof fn lemma_single_flight(
    r0: Resolver,
    r1: Resolver,
    r2: Resolver,
    name: Seq<u8>,
    s1: Step,
    s2: Step,
)
    requires
        begin_post(r0, r1, name, s1),
        begin_post(r1, r2, name, s2),
        s1 == Step::Provision,
    ensures
        s2 == Step::Wait,
        r2 == r1,
{
}

/// Provisioning one route never disturbs another: a `begin` for `n1` leaves
/// every distinct route `n2` exactly as it was.
pub proof fn lemma_routes_independent(
    r0: Resolver,
    r1: Resolver,
    n1: Seq<u8>,
    n2: Seq<u8>,
    s: Step,
)
    requires
        begin_post(r0, r1, n1, s),
        n1 != n2,
    ensures
        r1.has_route(n2) == r0.has_route(n2),
        r0.has_route(n2) ==> r1.route_state(n2) == r0.route_state(n2),
{
    assert(r1.has_route(n2) == r0.has_route(n2));
}

/// Reporting one route's outcome never disturbs another: a `complete` or a
/// `fail` for `n1` leaves every distinct route `n2` exactly as it was.
pub proof fn lemma_outcomes_independent(
    r0: Resolver,
    r1: Resolver,
    n1: Seq<u8>,
    n2: Seq<u8>,
    rec: WorkerRecord,
)
    requires
        complete_post(r0, r1, n1, rec) || fail_post(r0, r1, n1),
        n1 != n2,
    ensures
        r1.has_route(n2) == r0.has_route(n2),
        r0.has_route(n2) ==> r1.route_state(n2) == r0.route_state(n2),
{
    assert(r1.has_route(n2) == r0.has_route(n2));
}

/// Idempotence: once a route is resolved, every further `begin` returns that
/// same worker record, changes nothing, and starts no new provisioning.
pub proof fn lemma_resolve_idempotent(
    r0: Resolver,
    r1: Resolver,
    name: Seq<u8>,
    rec: WorkerRecord,
    s: Step,
)
    requires
        r0.resolved_to(name, rec),
        begin_post(r0, r1, name, s),
    ensures
        s == Step::Resolved(rec),
        r1 == r0,
{
}

/// Publication: after a successful provisioning attempt is reported, every
/// caller observes the one record that was stored — the provisioner and all
/// waiters agree on it.
pub proof fn lemma_published_record(
    r0: Resolver,
    r1: Resolver,
    r2: Resolver,
    name: Seq<u8>,
    rec: WorkerRecord,
    s: Step,
)
    requires
        complete_post(r0, r1, name, rec),
        begin_post(r1, r2, name, s),
    ensures
        s == Step::Resolved(rec),
        r2 == r1,
{
}

/// Retry after failure: a failed provisioning attempt does not poison the
/// route — the next `begin` for it is told to provision afresh.
pub proof fn lemma_retry_after_failure(
    r0: Resolver,
    r1: Resolver,
    r2: Resolver,
    name: Seq<u8>,
    s: Step,
)
    requires
        fail_post(r0, r1, name),
        begin_post(r1, r2, name, s),
    ensures
        s == Step::Provision,
{
}

proof fn lemma_same_names_frame(pre: Resolver, post: Resolver, i: int)
    requires
        pre.wf(),
        post.wf(),
        pre.entries@.len() == post.entries@.len(),
        0 <= i < pre.entries@.len(),
        forall|k: int|
            0 <= k < pre.entries@.len() ==> post.entries@[k].name@ == pre.entries@[k].name@,
        forall|k: int|
            0 <= k < pre.entries@.len() && k != i ==> post.entries@[k] == pre.entries@[k],
    ensures
        frame(pre, post, pre.entries@[i].name@),
{
    let except = pre.entries@[i].name@;
    assert forall|n: Seq<u8>| n != except implies (#[trigger] post.has_route(n))
        == pre.has_route(n) && (pre.has_route(n) ==> post.route_state(n) == pre.route_state(n)) by {
        if pre.has_route(n) {
            let w = pre.idx_of(n);
            assert(pre.entries@[w].name@ == n);
            assert(w != i);
            pre.lemma_witness(n, w);
            post.lemma_witness(n, w);
        }
        if post.has_route(n) {
            let w = post.idx_of(n);
            assert(post.entries@[w].name@ == n);
            assert(pre.entries@[w].name@ == n);
            assert(pre.has_route(n));
        }
    }
}

} // verus!
