//! Broadcast membership and the two-phase delivery sweep.
//!
//! One owner holds the set of connected sessions. An update runs
//! through the coalescer and, unless suppressed, the same frame is
//! written to every member; a periodic probe writes the heartbeat the
//! same way. Writes never mutate the membership mid-sweep: the caller
//! records a per-session verdict and the retain phase applies every
//! removal in one pass, so one failing session never blocks delivery
//! to the others.

use vstd::prelude::*;
use vstd::string::*;

use crate::coalesce::{coalesced_property, fixed_of, next_last, should_forward, Coalescer};
use crate::frame::{frame_bytes, UpdatePropertyMessage};

verus! {

/// The members surviving a sweep: session `i` stays exactly when
/// `keep[i]` holds, in unchanged order.
pub open spec fn filter_by(s: Seq<u64>, keep: Seq<bool>) -> Seq<u64>
    recommends
        s.len() == keep.len(),
    decreases s.len(),
{
    if s.len() == 0 {
        Seq::empty()
    } else if keep.last() {
        filter_by(s.drop_last(), keep.drop_last()).push(s.last())
    } else {
        filter_by(s.drop_last(), keep.drop_last())
    }
}

/// All-true verdicts keep every member.
pub proof fn lemma_filter_by_all_kept(s: Seq<u64>, keep: Seq<bool>)
    requires
        s.len() == keep.len(),
        forall|i: int| 0 <= i < keep.len() ==> keep[i],
    ensures
        filter_by(s, keep) =~= s,
    decreases s.len(),
{
    if s.len() > 0 {
        assert(forall|i: int| 0 <= i < keep.drop_last().len() ==> keep.drop_last()[i]);
        lemma_filter_by_all_kept(s.drop_last(), keep.drop_last());
    }
}

/// Law: broadcast resilience. When exactly one member fails its
/// write, the retain phase drops that member alone: the surviving
/// membership is the old one with only the failed session removed,
/// order kept, so the other members all stay (and each of them was
/// handed the very same frame by the planning step).
pub proof fn lemma_sweep_excludes_failed(s: Seq<u64>, keep: Seq<bool>, f: int)
    requires
        s.len() == keep.len(),
        0 <= f < keep.len(),
        forall|i: int| 0 <= i < keep.len() && i != f ==> keep[i],
        !keep[f],
    ensures
        filter_by(s, keep) =~= s.subrange(0, f) + s.subrange(f + 1, s.len() as int),
        filter_by(s, keep).len() == s.len() - 1,
    decreases s.len(),
{
    if f == s.len() - 1 {
        assert(forall|i: int| 0 <= i < keep.drop_last().len() ==> keep.drop_last()[i]);
        lemma_filter_by_all_kept(s.drop_last(), keep.drop_last());
        assert(filter_by(s, keep) =~= s.subrange(0, f) + s.subrange(f + 1, s.len() as int));
    } else {
        assert(forall|i: int|
            0 <= i < keep.drop_last().len() && i != f ==> keep.drop_last()[i]);
        lemma_sweep_excludes_failed(s.drop_last(), keep.drop_last(), f);
        assert(filter_by(s, keep) =~= s.subrange(0, f) + s.subrange(f + 1, s.len() as int));
    }
}

/// The session broadcaster: single owner of the membership list and of
/// the coalescing state. Sessions are carried as opaque handles; the
/// caller owns the transports and reports each write's verdict.
pub struct Clients {
    connections: Vec<u64>,
    coalescer: Coalescer,
}

impl Clients {
    /// The registered session handles, in registration order.
    pub closed spec fn sessions(&self) -> Seq<u64> {
        self.connections@
    }

    /// The position value last forwarded, as the coalescer holds it.
    pub closed spec fn last_forwarded(&self) -> Option<int> {
        self.coalescer.last_millis()
    }

    pub closed spec fn wf(&self) -> bool {
        self.coalescer.wf()
    }

    /// A broadcaster with no members and nothing forwarded yet.
    pub fn empty() -> (c: Clients)
        ensures
            c.wf(),
            c.sessions() =~= Seq::<u64>::empty(),
            c.last_forwarded() is None,
    {
        Clients { connections: Vec::new(), coalescer: Coalescer::new() }
    }

    /// Add a newly registered session to the broadcast membership.
    /// The caller seeds it with the store's snapshot first, so the
    /// joiner sees the full state before any later broadcast.
    pub fn push(&mut self, session: u64)
        requires
            old(self).wf(),
        ensures
            final(self).wf(),
            final(self).sessions() == old(self).sessions().push(session),
            final(self).last_forwarded() == old(self).last_forwarded(),
    {
        self.connections.push(session);
    }

    /// How many sessions are registered.
    pub fn len(&self) -> (n: usize)
        ensures
            n == self.sessions().len(),
    {
        self.connections.len()
    }

    /// The session handle at one membership position.
    pub fn session_at(&self, i: usize) -> (s: u64)
        requires
            i < self.sessions().len(),
        ensures
            s == self.sessions()[i as int],
    {
        self.connections[i]
    }

    /// Run an update through the coalescer: hand back the wire frame
    /// to write to every member, or nothing when the update is
    /// suppressed. Membership is untouched; only the coalescing
    /// bookkeeping moves, and only on a forwarded position.
    pub fn plan_update(&mut self, message: &UpdatePropertyMessage) -> (r: Option<Vec<u8>>)
        requires
            old(self).wf(),
        ensures
            final(self).wf(),
            final(self).sessions() == old(self).sessions(),
            match r {
                Some(f) => f@ == frame_bytes(message.property@, message.value@),
                None => true,
            },
            (r is Some) == (message.property@ != coalesced_property() || should_forward(
                old(self).last_forwarded(),
                fixed_of(message.value@),
            )),
            message.property@ == coalesced_property() ==> final(self).last_forwarded()
                == next_last(old(self).last_forwarded(), fixed_of(message.value@)),
            message.property@ != coalesced_property() ==> final(self).last_forwarded()
                == old(self).last_forwarded(),
    {
        let forward = self.coalescer.decide(message.property.as_str(), message.value.as_str());
        if forward {
            Some(message.encode())
        } else {
            None
        }
    }

    /// The retain phase of the two-phase sweep: apply the recorded
    /// per-session verdicts in one pass, dropping exactly the members
    /// whose write failed.
    pub fn sweep(&mut self, keep: &Vec<bool>)
        requires
            old(self).wf(),
            keep@.len() == old(self).sessions().len(),
        ensures
            final(self).wf(),
            final(self).sessions() == filter_by(old(self).sessions(), keep@),
            final(self).last_forwarded() == old(self).last_forwarded(),
    {
        let n = self.connections.len();
        let mut kept: Vec<u64> = Vec::new();
        let mut i: usize = 0;
        while i < n
            invariant
                n == self.connections@.len(),
                keep@.len() == n,
                i <= n,
                kept@ =~= filter_by(
                    self.connections@.subrange(0, i as int),
                    keep@.subrange(0, i as int),
                ),
            decreases n - i,
        {
            if keep[i] {
                kept.push(self.connections[i]);
            }
            i = i + 1;
            proof {
                let cs = self.connections@.subrange(0, i as int);
                let ks = keep@.subrange(0, i as int);
                assert(cs.drop_last() =~= self.connections@.subrange(0, i - 1));
                assert(ks.drop_last() =~= keep@.subrange(0, i - 1));
                assert(cs.last() == self.connections@[i - 1]);
                assert(ks.last() == keep@[i - 1]);
            }
        }
        proof {
            assert(self.connections@.subrange(0, n as int) =~= self.connections@);
            assert(keep@.subrange(0, n as int) =~= keep@);
        }
        self.connections = kept;
    }
}

} // verus!
