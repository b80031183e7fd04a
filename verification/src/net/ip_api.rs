//! Request and subsequently access ip-geolocations from Ip-Api.com
//!
//! [`Client::request`] decides whether a lookup must be sent, and records it
//! as in progress; [`Client::geolocate`] retrieves completed lookups from the
//! cache; [`Client::finish_job`] files a completed lookup.
//!
//! This enables the client to be easily used in synchronous code.
//! For example, in a user interface/dashboard, request a lookup when a
//! displayable geolocation object is constructed and geolocate during display.
//!
//! Initially:      Connection: 12.34.56.78 -- Geolocation: Loading...
//! Refreshed:      Connection: 12.34.56.78 -- Geolocation: Leyndell, LB
//!
//! [`RequestLimiter`] accumulates the lookups to send and splits them into
//! batch and single requests.

use std::collections::{HashMap, HashSet, VecDeque};
use std::collections::hash_map::RandomState;
use vstd::prelude::*;
use vstd::std_specs::hash::{obeys_key_model, builds_valid_hashers};
use crate::net::dispatch::{Dispatch, plan_dispatch, spec_plan, dispatch_view};

verus! {

broadcast use {
    vstd::std_specs::hash::group_hash_axioms,
    vstd::std_specs::vecdeque::group_vec_dequeue_axioms,
};

/// Minimum # of jobs that should be batched vs dispatched as single queries:
/// a group of at least this many lookups goes out as one batch request.
pub const BATCH_THRESHOLD: usize = 5;

/// The cache of completed lookups and the set of lookups in progress,
/// keyed by IPv4 address; `L` is what a completed lookup yields.
pub struct Client<L> {
    /// Cached queries.
    cache: HashMap<u32, L>,
    /// Tracks in-progress requests to prevent duplicate queries.
    active_requests: HashSet<u32>,
}

/// The abstract state of a client: completed lookups and lookups in progress.
pub struct ClientState<L> {
    pub cache: Map<u32, L>,
    pub active: Set<u32>,
}

/// What a request for `ip` does: nothing when `ip` is cached; otherwise
/// `ip` is in progress afterwards, and a query is sent when it was not
/// in progress before.
pub open spec fn spec_request<L>(s: ClientState<L>, ip: u32) -> (ClientState<L>, bool) {
    if s.cache.contains_key(ip) {
        (s, false)
    } else {
        (ClientState { cache: s.cache, active: s.active.insert(ip) }, !s.active.contains(ip))
    }
}

/// What filing the result of a lookup does: `ip` is cached with its result
/// and no longer in progress.
pub open spec fn spec_finish<L>(s: ClientState<L>, ip: u32, locator: L) -> ClientState<L> {
    ClientState { cache: s.cache.insert(ip, locator), active: s.active.remove(ip) }
}

/// No address is both cached and in progress.
pub open spec fn spec_disjoint<L>(s: ClientState<L>) -> bool {
    forall|ip: u32| !(#[trigger] s.cache.contains_key(ip) && s.active.contains(ip))
}

impl<L> Client<L> {
    /// The abstract state.
    pub closed spec fn state(&self) -> ClientState<L> {
        ClientState { cache: self.cache@, active: self.active_requests@ }
    }

    pub closed spec fn wf(&self) -> bool {
        &&& obeys_key_model::<u32>()
        &&& builds_valid_hashers::<RandomState>()
        &&& spec_disjoint(self.state())
    }

    /// Nothing cached, nothing in progress.
    pub fn new() -> (r: Self)
        ensures
            r.wf(),
            r.state().cache == Map::<u32, L>::empty(),
            r.state().active == Set::<u32>::empty(),
    {
        Client { cache: HashMap::new(), active_requests: HashSet::new() }
    }

    /// Records a request for `ip`; returns whether a query must be sent.
    pub fn request(&mut self, ip: u32) -> (dispatch: bool)
        requires
            old(self).wf(),
        ensures
            final(self).wf(),
            (final(self).state(), dispatch) == spec_request(old(self).state(), ip),
    {
        // Ignore requests that are already cached
        if self.cache.contains_key(&ip) {
            return false;
        }
        let r = self.active_requests.insert(ip);
        proof {
            assert forall|k: u32| !(#[trigger] self.cache@.contains_key(k)
                && self.active_requests@.contains(k)) by {
                if k != ip {
                    assert(!(old(self).state().cache.contains_key(k) && old(self).state().active.contains(k)));
                }
            }
        }
        r
    }

    /// The completed lookup for `ip`, if it is cached.
    pub fn geolocate(&self, ip: &u32) -> (r: Option<&L>)
        requires
            self.wf(),
        ensures
            match r {
                Some(l) => self.state().cache.contains_key(*ip) && *l == self.state().cache[*ip],
                None => !self.state().cache.contains_key(*ip),
            },
    {
        self.cache.get(ip)
    }

    /// Finishes a completed job by adding its result to the cache and
    /// removing the address from the lookups in progress.
    pub fn finish_job(&mut self, ip: u32, locator: L)
        requires
            old(self).wf(),
        ensures
            final(self).wf(),
            final(self).state() == spec_finish(old(self).state(), ip, locator),
    {
        self.cache.insert(ip, locator);
        self.active_requests.remove(&ip);
        proof {
            assert(self.active_requests@ =~= old(self).active_requests@.remove(ip));
            assert forall|k: u32| !(#[trigger] self.cache@.contains_key(k)
                && self.active_requests@.contains(k)) by {
                if k != ip {
                    assert(!(old(self).state().cache.contains_key(k) && old(self).state().active.contains(k)));
                }
            }
        }
    }
}

/// Every operation keeps cached addresses and addresses in progress apart.
pub proof fn law_cache_and_active_stay_disjoint<L>(s: ClientState<L>, ip: u32, locator: L)
    requires
        spec_disjoint(s),
    ensures
        spec_disjoint(spec_request(s, ip).0),
        spec_disjoint(spec_finish(s, ip, locator)),
{
    assert forall|k: u32| !(#[trigger] spec_request(s, ip).0.cache.contains_key(k)
        && spec_request(s, ip).0.active.contains(k)) by {
        if k != ip {
            assert(!(s.cache.contains_key(k) && s.active.contains(k)));
        }
    }
    assert forall|k: u32| !(#[trigger] spec_finish(s, ip, locator).cache.contains_key(k)
        && spec_finish(s, ip, locator).active.contains(k)) by {
        if k != ip {
            assert(!(s.cache.contains_key(k) && s.active.contains(k)));
        }
    }
}

/// A lookup is queried at most once while it is in progress: requesting the
/// same address again before its result is filed sends nothing.
pub proof fn law_no_duplicate_queries<L>(s: ClientState<L>, ip: u32)
    ensures
        !spec_request(spec_request(s, ip).0, ip).1,
        spec_request(spec_request(s, ip).0, ip).0 == spec_request(s, ip).0,
{
    if !s.cache.contains_key(ip) {
        assert(s.active.insert(ip).insert(ip) =~= s.active.insert(ip));
    }
}

/// Read after write: once the result for `ip` is filed, it is what a lookup
/// of `ip` finds, and a new request for `ip` sends nothing.
pub proof fn law_finished_lookup_is_served_from_cache<L>(s: ClientState<L>, ip: u32, locator: L)
    ensures
        spec_finish(s, ip, locator).cache.contains_key(ip),
        spec_finish(s, ip, locator).cache[ip] == locator,
        !spec_request(spec_finish(s, ip, locator), ip).1,
{
}

/// A group of `BATCH_THRESHOLD` or more queued lookups, up to 100, goes out
/// as one batch request; a smaller group goes out one lookup at a time.
pub proof fn law_batch_threshold_is_inclusive(group: Seq<u32>)
    requires
        0 < group.len() <= crate::net::dispatch::BATCH_SIZE,
    ensures
        group.len() >= BATCH_THRESHOLD ==> spec_plan(group, (BATCH_THRESHOLD - 1) as nat) == seq![
            (true, group),
        ],
        group.len() < BATCH_THRESHOLD ==> spec_plan(group, (BATCH_THRESHOLD - 1) as nat)
            == group.map_values(|x: u32| (false, seq![x])),
{
    let t = (BATCH_THRESHOLD - 1) as nat;
    assert(group.take(group.len() as int) =~= group);
    assert(group.skip(group.len() as int) =~= Seq::<u32>::empty());
    assert(spec_plan(Seq::<u32>::empty(), t) =~= Seq::<(bool, Seq<u32>)>::empty());
    if group.len() >= BATCH_THRESHOLD {
        assert(spec_plan(group, t) =~= seq![(true, group)]);
    } else {
        assert(spec_plan(group, t) =~= group.map_values(|x: u32| (false, seq![x])));
    }
}

/// Filing the result for one address, or requesting one address, leaves
/// every other address as it was: cached with the same result, or not
/// cached, and in progress or not.
pub proof fn law_operations_touch_only_their_address<L>(
    s: ClientState<L>,
    ip: u32,
    locator: L,
    other: u32,
)
    requires
        other != ip,
    ensures
        spec_finish(s, ip, locator).cache.contains_key(other) == s.cache.contains_key(other),
        s.cache.contains_key(other) ==> spec_finish(s, ip, locator).cache[other]
            == s.cache[other],
        spec_finish(s, ip, locator).active.contains(other) == s.active.contains(other),
        spec_request(s, ip).0.cache == s.cache,
        spec_request(s, ip).0.active.contains(other) == s.active.contains(other),
        !spec_finish(s, ip, locator).active.contains(ip),
{
}

/// Results filed one after the other are all kept: after filing `la` for
/// `a` and then `lb` for `b`, a lookup of `a` still finds `la` and a new
/// request for `a` sends nothing.
pub proof fn law_filed_results_accumulate<L>(s: ClientState<L>, a: u32, la: L, b: u32, lb: L)
    requires
        a != b,
    ensures
        spec_finish(spec_finish(s, a, la), b, lb).cache.contains_key(a),
        spec_finish(spec_finish(s, a, la), b, lb).cache[a] == la,
        spec_finish(spec_finish(s, a, la), b, lb).cache[b] == lb,
        !spec_request(spec_finish(spec_finish(s, a, la), b, lb), a).1,
{
}

/// An address that is neither cached nor in progress is queried on request.
pub proof fn law_fresh_address_is_queried<L>(s: ClientState<L>, ip: u32)
    requires
        !s.cache.contains_key(ip),
        !s.active.contains(ip),
    ensures
        spec_request(s, ip).1,
        spec_request(s, ip).0.active.contains(ip),
{
}

/// Accumulates lookups to send, newest first, and splits them into requests.
pub struct RequestLimiter {
    /// Job accumulator for periodic batching/dispatching.
    job_buffer: VecDeque<u32>,
}

impl View for RequestLimiter {
    type V = Seq<u32>;

    /// The queued lookups, in the order they will be sent.
    closed spec fn view(&self) -> Seq<u32> {
        self.job_buffer@
    }
}

impl RequestLimiter {
    /// Nothing queued.
    pub fn new() -> (r: Self)
        ensures
            r@ == Seq::<u32>::empty(),
    {
        RequestLimiter { job_buffer: VecDeque::new() }
    }

    /// Queues a lookup in front of those already queued.
    pub fn queue_job(&mut self, ip: u32)
        ensures
            final(self)@ == seq![ip] + old(self)@,
    {
        self.job_buffer.push_front(ip);
    }

    /// Dispatches queued jobs in batches of 100 to the `/batch` endpoint.
    /// Also dispatches extraneous jobs (qty. < BATCH_THRESHOLD) to the `/`
    /// (single) endpoint. The queue is empty afterwards.
    pub fn dispatch_jobs(&mut self) -> (r: Vec<Dispatch<u32>>)
        ensures
            final(self)@ == Seq::<u32>::empty(),
            r@.map_values(|d: Dispatch<u32>| dispatch_view(d)) == spec_plan(
                old(self)@,
                (BATCH_THRESHOLD - 1) as nat,
            ),
    {
        let ghost all = self.job_buffer@;
        let mut jobs: Vec<u32> = Vec::new();
        while self.job_buffer.len() > 0
            invariant
                jobs@ + self.job_buffer@ == all,
            decreases self.job_buffer.len(),
        {
            let ghost before = self.job_buffer@;
            if let Some(ip) = self.job_buffer.pop_front() {
                jobs.push(ip);
                proof {
                    assert(jobs@ + self.job_buffer@ =~= all);
                }
            }
        }
        proof {
            assert(jobs@ =~= all);
        }
        plan_dispatch(jobs, BATCH_THRESHOLD - 1)
    }
}

} // verus!
