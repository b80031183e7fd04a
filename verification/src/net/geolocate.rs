//! The cache behind geolocation lookups: a lookup is answered from the
//! cache; when the cache has no answer yet, the caller sends a query, whose
//! answer is filed in the cache once it arrives.

use std::collections::HashMap;
use std::collections::hash_map::RandomState;
use vstd::prelude::*;
use vstd::std_specs::hash::{obeys_key_model, builds_valid_hashers};

pub mod ip_api;

verus! {

broadcast use vstd::std_specs::hash::group_hash_axioms;

/// Completed geolocations keyed by IPv4 address; `L` is what a completed
/// lookup yields.
pub struct GeolocationClient<L> {
    cache: HashMap<u32, L>,
}

impl<L> View for GeolocationClient<L> {
    type V = Map<u32, L>;

    closed spec fn view(&self) -> Map<u32, L> {
        self.cache@
    }
}

impl<L> GeolocationClient<L> {
    pub closed spec fn wf(&self) -> bool {
        &&& obeys_key_model::<u32>()
        &&& builds_valid_hashers::<RandomState>()
    }

    /// Nothing cached.
    pub fn new() -> (r: Self)
        ensures
            r.wf(),
            r@ == Map::<u32, L>::empty(),
    {
        GeolocationClient { cache: HashMap::new() }
    }

    /// The cached geolocation of `ip`; `None` means a query is due.
    pub fn geolocate(&self, ip: &u32) -> (r: Option<&L>)
        requires
            self.wf(),
        ensures
            match r {
                Some(l) => self@.contains_key(*ip) && *l == self@[*ip],
                None => !self@.contains_key(*ip),
            },
    {
        self.cache.get(ip)
    }

    /// Files the answer to a query.
    pub fn insert(&mut self, ip: u32, locator: L)
        requires
            old(self).wf(),
        ensures
            final(self).wf(),
            final(self)@ == old(self)@.insert(ip, locator),
    {
        self.cache.insert(ip, locator);
    }
}

} // verus!
