//! Splits queued lookups into requests: lookups are grouped in order into
//! batches of at most `BATCH_SIZE`; a group larger than a threshold goes out
//! as one batch request, a smaller one as one single request per lookup.

use vstd::prelude::*;

verus! {

/// The most lookups that one batch request carries.
pub const BATCH_SIZE: usize = 100;

/// One request to send.
#[derive(Debug)]
pub enum Dispatch<T> {
    /// Several lookups in one batch request.
    Batch(Vec<T>),
    /// One lookup on its own.
    Single(T),
}

/// A request as a flag (whether it is a batch) and the lookups it carries.
pub open spec fn dispatch_view<T>(d: Dispatch<T>) -> (bool, Seq<T>) {
    match d {
        Dispatch::Batch(v) => (true, v@),
        Dispatch::Single(x) => (false, seq![x]),
    }
}

/// The requests for one group of lookups.
pub open spec fn spec_plan_group<T>(group: Seq<T>, threshold: nat) -> Seq<(bool, Seq<T>)> {
    if group.len() > threshold {
        seq![(true, group)]
    } else {
        group.map_values(|x: T| (false, seq![x]))
    }
}

/// The size of the first group of `s`.
pub open spec fn first_group_len<T>(s: Seq<T>) -> int {
    if s.len() <= BATCH_SIZE {
        s.len() as int
    } else {
        BATCH_SIZE as int
    }
}

/// The requests for a sequence of lookups, group after group.
pub open spec fn spec_plan<T>(s: Seq<T>, threshold: nat) -> Seq<(bool, Seq<T>)>
    decreases s.len(),
{
    if s.len() == 0 {
        Seq::empty()
    } else {
        let n = first_group_len(s);
        spec_plan_group(s.take(n), threshold) + spec_plan(s.skip(n), threshold)
    }
}

/// All lookups that a list of requests carries, in order.
pub open spec fn carried<T>(plan: Seq<(bool, Seq<T>)>) -> Seq<T>
    decreases plan.len(),
{
    if plan.len() == 0 {
        Seq::empty()
    } else {
        plan[0].1 + carried(plan.drop_first())
    }
}

proof fn lemma_carried_append<T>(a: Seq<(bool, Seq<T>)>, b: Seq<(bool, Seq<T>)>)
    ensures
        carried(a + b) == carried(a) + carried(b),
    decreases a.len(),
{
    if a.len() == 0 {
        assert(a + b =~= b);
    } else {
        lemma_carried_append(a.drop_first(), b);
        assert((a + b).drop_first() =~= a.drop_first() + b);
        assert(carried(a) + carried(b) =~= a[0].1 + (carried(a.drop_first()) + carried(b)));
    }
}

proof fn lemma_carried_singles<T>(g: Seq<T>)
    ensures
        carried(g.map_values(|x: T| (false, seq![x]))) == g,
    decreases g.len(),
{
    let m = g.map_values(|x: T| (false, seq![x]));
    if g.len() > 0 {
        lemma_carried_singles(g.drop_first());
        assert(m.drop_first() =~= g.drop_first().map_values(|x: T| (false, seq![x])));
        assert(seq![g[0]] + g.drop_first() =~= g);
    } else {
        assert(g =~= Seq::<T>::empty());
    }
}

/// Planning loses no lookup and adds none: the requests carry exactly the
/// queued lookups, in queue order.
pub proof fn law_plan_carries_every_lookup<T>(s: Seq<T>, threshold: nat)
    ensures
        carried(spec_plan(s, threshold)) == s,
    decreases s.len(),
{
    if s.len() == 0 {
        assert(carried(spec_plan(s, threshold)) =~= s);
    } else {
        let n = first_group_len(s);
        law_plan_carries_every_lookup(s.skip(n), threshold);
        lemma_carried_append(spec_plan_group(s.take(n), threshold), spec_plan(s.skip(n), threshold));
        if s.take(n).len() > threshold {
            let p = seq![(true, s.take(n))];
            assert(p.drop_first() =~= Seq::<(bool, Seq<T>)>::empty());
            assert(carried(p.drop_first()) =~= Seq::<T>::empty());
            assert(carried(p) =~= s.take(n));
        } else {
            lemma_carried_singles(s.take(n));
        }
        assert(s.take(n) + s.skip(n) =~= s);
    }
}

/// Every batch request carries more lookups than the threshold and at most
/// `BATCH_SIZE`; every other request carries exactly one lookup.
pub proof fn law_plan_request_sizes<T>(s: Seq<T>, threshold: nat)
    ensures
        forall|i: int|
            0 <= i < spec_plan(s, threshold).len() ==> {
                let d = #[trigger] spec_plan(s, threshold)[i];
                &&& d.0 ==> threshold < d.1.len() <= BATCH_SIZE
                &&& !d.0 ==> d.1.len() == 1
            },
    decreases s.len(),
{
    if s.len() > 0 {
        let n = first_group_len(s);
        law_plan_request_sizes(s.skip(n), threshold);
        let g = spec_plan_group(s.take(n), threshold);
        let r = spec_plan(s.skip(n), threshold);
        assert forall|i: int| 0 <= i < spec_plan(s, threshold).len() implies {
            let d = #[trigger] spec_plan(s, threshold)[i];
            &&& d.0 ==> threshold < d.1.len() <= BATCH_SIZE
            &&& !d.0 ==> d.1.len() == 1
        } by {
            if i >= g.len() {
                assert(spec_plan(s, threshold)[i] == r[i - g.len()]);
            }
        }
    }
}

/// A group of at most `BATCH_SIZE` lookups goes out as one batch request
/// when it holds more than the threshold, and as one single request per
/// lookup otherwise; a longer queue is split after its first `BATCH_SIZE`
/// lookups.
pub proof fn law_plan_of_groups<T>(s: Seq<T>, threshold: nat)
    ensures
        0 < s.len() <= BATCH_SIZE && s.len() > threshold ==> spec_plan(s, threshold) == seq![
            (true, s),
        ],
        s.len() <= BATCH_SIZE && s.len() <= threshold ==> spec_plan(s, threshold)
            == s.map_values(|x: T| (false, seq![x])),
        s.len() > BATCH_SIZE ==> spec_plan(s, threshold) == spec_plan(
            s.take(BATCH_SIZE as int),
            threshold,
        ) + spec_plan(s.skip(BATCH_SIZE as int), threshold),
{
    if s.len() == 0 {
        assert(s.map_values(|x: T| (false, seq![x])) =~= Seq::<(bool, Seq<T>)>::empty());
    } else if s.len() <= BATCH_SIZE {
        assert(s.take(s.len() as int) =~= s);
        assert(s.skip(s.len() as int) =~= Seq::<T>::empty());
        assert(spec_plan(Seq::<T>::empty(), threshold) =~= Seq::<(bool, Seq<T>)>::empty());
        assert(spec_plan(s, threshold) =~= spec_plan_group(s, threshold));
    } else {
        let h = s.take(BATCH_SIZE as int);
        assert(h.take(BATCH_SIZE as int) =~= h);
        assert(h.skip(BATCH_SIZE as int) =~= Seq::<T>::empty());
        assert(spec_plan(Seq::<T>::empty(), threshold) =~= Seq::<(bool, Seq<T>)>::empty());
        assert(spec_plan(h, threshold) =~= spec_plan_group(h, threshold));
    }
}

/// The requests for `jobs`, as `spec_plan` describes them.
pub fn plan_dispatch<T>(jobs: Vec<T>, threshold: usize) -> (r: Vec<Dispatch<T>>)
    ensures
        r@.map_values(|d: Dispatch<T>| dispatch_view(d)) == spec_plan(jobs@, threshold as nat),
{
    let ghost all = jobs@;
    let mut rest = jobs;
    let mut out: Vec<Dispatch<T>> = Vec::new();
    while rest.len() > 0
        invariant
            out@.map_values(|d: Dispatch<T>| dispatch_view(d)) + spec_plan(rest@, threshold as nat)
                == spec_plan(all, threshold as nat),
        decreases rest.len(),
    {
        let ghost before = out@.map_values(|d: Dispatch<T>| dispatch_view(d));
        let ghost whole = rest@;
        let n: usize = if rest.len() <= BATCH_SIZE {
            rest.len()
        } else {
            BATCH_SIZE
        };
        let tail = rest.split_off(n);
        let mut group = rest;
        rest = tail;
        proof {
            assert(group@ =~= whole.take(n as int));
            assert(rest@ =~= whole.skip(n as int));
        }
        let ghost gview = group@;
        assert(gview.len() <= BATCH_SIZE);
        if group.len() > threshold {
            out.push(Dispatch::Batch(group));
            proof {
                assert(out@.map_values(|d: Dispatch<T>| dispatch_view(d)) =~= before
                    + spec_plan_group(gview, threshold as nat));
            }
        } else {
            let mut j: usize = 0;
            while group.len() > 0
                invariant
                    j + group.len() == gview.len(),
                    gview.len() <= BATCH_SIZE,
                    group@ == gview.skip(j as int),
                    out@.map_values(|d: Dispatch<T>| dispatch_view(d)) == before + gview.take(
                        j as int,
                    ).map_values(|x: T| (false, seq![x])),
                decreases group.len(),
            {
                let ghost prev_out = out@;
                let x = group.remove(0);
                proof {
                    assert(x == gview[j as int]);
                }
                out.push(Dispatch::Single(x));
                proof {
                    assert(out@ =~= prev_out.push(Dispatch::Single(x)));
                    assert(out@.map_values(|d: Dispatch<T>| dispatch_view(d)) =~= prev_out.map_values(
                        |d: Dispatch<T>| dispatch_view(d),
                    ).push((false, seq![x])));
                    assert(gview.take(j + 1).map_values(|x: T| (false, seq![x])) =~= gview.take(
                        j as int,
                    ).map_values(|x: T| (false, seq![x])).push((false, seq![x])));
                }
                j += 1;
                proof {
                    assert(group@ =~= gview.skip(j as int));
                }
            }
            proof {
                assert(gview.take(j as int) =~= gview);
            }
        }
        proof {
            assert(spec_plan(whole, threshold as nat) == spec_plan_group(gview, threshold as nat)
                + spec_plan(rest@, threshold as nat));
            assert(out@.map_values(|d: Dispatch<T>| dispatch_view(d)) + spec_plan(
                rest@,
                threshold as nat,
            ) =~= before + spec_plan(whole, threshold as nat));
        }
    }
    proof {
        assert(out@.map_values(|d: Dispatch<T>| dispatch_view(d)) + spec_plan(
            rest@,
            threshold as nat,
        ) =~= out@.map_values(|d: Dispatch<T>| dispatch_view(d)));
    }
    out
}

} // verus!
