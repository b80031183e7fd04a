//! The stages that lookups pass through on their way to the geolocation
//! service: the job queue refuses a lookup for an address that is already
//! pending, and the dispatcher accumulates lookups and splits them into
//! requests.

use std::collections::HashSet;
use std::collections::hash_map::RandomState;
use vstd::prelude::*;
use vstd::std_specs::hash::{obeys_key_model, builds_valid_hashers};
use crate::net::dispatch::{Dispatch, plan_dispatch, spec_plan, dispatch_view};

verus! {

broadcast use vstd::std_specs::hash::group_hash_axioms;

/// A group of lookups goes out as one batch request only when it holds more
/// than this many.
pub const BATCH_THRESHOLD: usize = 3;

/// A lookup of `ip`, with what its answer is sent back through.
pub struct Job<T> {
    pub ip: u32,
    pub reply: T,
}

/// What the job queue is told.
pub enum JobQueueMessage<T> {
    /// A new lookup.
    Insert(Job<T>),
    /// The lookup of this address has completed.
    Remove(u32),
}

/// What inserting a lookup of `ip` does: `ip` is pending afterwards, and
/// the lookup is passed on when `ip` was not pending before.
pub open spec fn spec_insert(pending: Set<u32>, ip: u32) -> (Set<u32>, bool) {
    (pending.insert(ip), !pending.contains(ip))
}

/// What the completion of the lookup of `ip` does: `ip` is no longer pending.
pub open spec fn spec_remove(pending: Set<u32>, ip: u32) -> Set<u32> {
    pending.remove(ip)
}

/// Manages the set of pending jobs. Denies new jobs that match
/// an already-pending job.
pub struct JobQueueManager {
    active_jobs: HashSet<u32>,
}

impl View for JobQueueManager {
    type V = Set<u32>;

    /// The addresses with a pending lookup.
    closed spec fn view(&self) -> Set<u32> {
        self.active_jobs@
    }
}

impl JobQueueManager {
    pub closed spec fn wf(&self) -> bool {
        &&& obeys_key_model::<u32>()
        &&& builds_valid_hashers::<RandomState>()
    }

    /// Nothing pending.
    pub fn new() -> (r: Self)
        ensures
            r.wf(),
            r@ == Set::<u32>::empty(),
    {
        JobQueueManager { active_jobs: HashSet::new() }
    }

    /// Handles one message; returns the job to pass on to the dispatcher,
    /// which is the inserted job when its address was not pending.
    pub fn handle_message<T>(&mut self, msg: JobQueueMessage<T>) -> (r: Option<Job<T>>)
        requires
            old(self).wf(),
        ensures
            final(self).wf(),
            match msg {
                JobQueueMessage::Insert(job) => {
                    &&& final(self)@ == spec_insert(old(self)@, job.ip).0
                    &&& if spec_insert(old(self)@, job.ip).1 {
                        r == Some(job)
                    } else {
                        r is None
                    }
                },
                JobQueueMessage::Remove(ip) => {
                    &&& final(self)@ == spec_remove(old(self)@, ip)
                    &&& r is None
                },
            },
    {
        match msg {
            JobQueueMessage::Insert(job) => {
                if self.active_jobs.insert(job.ip) {
                    Some(job)
                } else {
                    None
                }
            },
            JobQueueMessage::Remove(ip) => {
                self.active_jobs.remove(&ip);
                proof {
                    assert(self.active_jobs@ =~= old(self).active_jobs@.remove(ip));
                }
                None
            },
        }
    }
}

/// While a lookup is pending, another lookup of the same address is refused
/// and changes nothing; once it completed, the address is accepted again.
pub proof fn law_pending_address_is_refused(pending: Set<u32>, ip: u32)
    ensures
        !spec_insert(spec_insert(pending, ip).0, ip).1,
        spec_insert(spec_insert(pending, ip).0, ip).0 == spec_insert(pending, ip).0,
        spec_insert(spec_remove(spec_insert(pending, ip).0, ip), ip).1,
{
    assert(pending.insert(ip).insert(ip) =~= pending.insert(ip));
}

/// Inserting or completing the lookup of one address leaves every other
/// address pending, or not, as it was; a completed address is no longer
/// pending.
pub proof fn law_messages_touch_only_their_address(pending: Set<u32>, ip: u32, other: u32)
    requires
        other != ip,
    ensures
        spec_remove(pending, ip).contains(other) == pending.contains(other),
        spec_insert(pending, ip).0.contains(other) == pending.contains(other),
        !spec_remove(pending, ip).contains(ip),
        spec_insert(pending, ip).0.contains(ip),
{
}

/// Completing one lookup does not let a duplicate of another pending lookup
/// through: after `a` and `b` are inserted and `a` completes, `b` is still
/// refused.
pub proof fn law_other_pending_address_stays_refused(pending: Set<u32>, a: u32, b: u32)
    requires
        a != b,
    ensures
        !spec_insert(spec_remove(spec_insert(spec_insert(pending, a).0, b).0, a), b).1,
{
}

/// Accumulates jobs and splits them into requests.
pub struct Dispatcher<T> {
    job_buffer: Vec<T>,
}

impl<T> View for Dispatcher<T> {
    type V = Seq<T>;

    /// The accumulated jobs, oldest first.
    closed spec fn view(&self) -> Seq<T> {
        self.job_buffer@
    }
}

impl<T> Dispatcher<T> {
    /// Nothing accumulated.
    pub fn new() -> (r: Self)
        ensures
            r@ == Seq::<T>::empty(),
    {
        Dispatcher { job_buffer: Vec::new() }
    }

    /// Accumulates a job.
    pub fn push(&mut self, job: T)
        ensures
            final(self)@ == old(self)@.push(job),
    {
        self.job_buffer.push(job);
    }

    /// Whether any job is waiting; requests go out only then.
    pub fn has_jobs(&self) -> (r: bool)
        ensures
            r == (self@.len() > 0),
    {
        !self.job_buffer.is_empty()
    }

    /// Splits the accumulated jobs into requests: batches of up to 100 jobs,
    /// and single requests for a group of at most `BATCH_THRESHOLD`. No job
    /// is left afterwards.
    pub fn dispatch_jobs(&mut self) -> (r: Vec<Dispatch<T>>)
        ensures
            final(self)@ == Seq::<T>::empty(),
            r@.map_values(|d: Dispatch<T>| dispatch_view(d)) == spec_plan(
                old(self)@,
                BATCH_THRESHOLD as nat,
            ),
    {
        let mut jobs = Vec::new();
        std::mem::swap(&mut jobs, &mut self.job_buffer);
        plan_dispatch(jobs, BATCH_THRESHOLD)
    }
}

} // verus!
