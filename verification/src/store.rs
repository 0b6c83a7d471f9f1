//! The authoritative property store kept by the host.

use vstd::prelude::*;

use crate::frame::{frame_bytes, UpdatePropertyMessage};
use crate::text::no_nul;

verus! {

/// The map described by a sequence of key/value pairs, later pairs
/// winning over earlier ones.
pub open spec fn map_of_pairs(s: Seq<(Seq<char>, Seq<char>)>) -> Map<Seq<char>, Seq<char>>
    decreases s.len(),
{
    if s.len() == 0 {
        Map::empty()
    } else {
        map_of_pairs(s.drop_last()).insert(s.last().0, s.last().1)
    }
}

/// No two pairs share a key.
pub open spec fn keys_unique(s: Seq<(Seq<char>, Seq<char>)>) -> bool {
    forall|i: int, j: int| 0 <= i < j < s.len() ==> (#[trigger] s[i]).0 != (#[trigger] s[j]).0
}

/// Every key and value is free of NUL, as the wire protocol demands.
pub open spec fn pairs_no_nul(s: Seq<(Seq<char>, Seq<char>)>) -> bool {
    forall|i: int| 0 <= i < s.len() ==> no_nul((#[trigger] s[i]).0) && no_nul(s[i].1)
}

/// A key is in the map of a pair sequence exactly when some pair holds it.
pub proof fn lemma_map_of_pairs_dom(s: Seq<(Seq<char>, Seq<char>)>, k: Seq<char>)
    ensures
        map_of_pairs(s).dom().contains(k) <==> exists|i: int| 0 <= i < s.len() && (#[trigger] s[i]).0 == k,
    decreases s.len(),
{
    if s.len() == 0 {
    } else {
        lemma_map_of_pairs_dom(s.drop_last(), k);
        if s.last().0 == k {
            assert(s[s.len() - 1].0 == k);
        } else {
            if map_of_pairs(s).dom().contains(k) {
                let i = choose|i: int| 0 <= i < s.drop_last().len() && (#[trigger] s.drop_last()[i]).0 == k;
                assert(s[i].0 == k);
            }
            if exists|i: int| 0 <= i < s.len() && (#[trigger] s[i]).0 == k {
                let i = choose|i: int| 0 <= i < s.len() && (#[trigger] s[i]).0 == k;
                assert(s.drop_last()[i].0 == k);
            }
        }
    }
}

/// With unique keys, the map of a pair sequence sends each key to the
/// value stored beside it.
pub proof fn lemma_map_of_pairs_at(s: Seq<(Seq<char>, Seq<char>)>, i: int)
    requires
        keys_unique(s),
        0 <= i < s.len(),
    ensures
        map_of_pairs(s).dom().contains(s[i].0),
        map_of_pairs(s)[s[i].0] == s[i].1,
    decreases s.len(),
{
    if i == s.len() - 1 {
    } else {
        assert(keys_unique(s.drop_last()));
        lemma_map_of_pairs_at(s.drop_last(), i);
        assert(s.drop_last()[i] == s[i]);
        assert(s.last().0 != s[i].0);
    }
}

/// Replacing the value at index `i` acts on the map as an insert of the
/// key stored there.
pub proof fn lemma_map_of_pairs_update(s: Seq<(Seq<char>, Seq<char>)>, i: int, v: Seq<char>)
    requires
        keys_unique(s),
        0 <= i < s.len(),
    ensures
        map_of_pairs(s.update(i, (s[i].0, v))) =~= map_of_pairs(s).insert(s[i].0, v),
    decreases s.len(),
{
    let t = s.update(i, (s[i].0, v));
    if i == s.len() - 1 {
        assert(t.drop_last() =~= s.drop_last());
        assert(t.last() == (s[i].0, v));
    } else {
        assert(keys_unique(s.drop_last()));
        lemma_map_of_pairs_update(s.drop_last(), i, v);
        assert(t.drop_last() =~= s.drop_last().update(i, (s[i].0, v)));
        assert(t.last() == s.last());
        assert(s.last().0 != s[i].0);
    }
}

/// Authoritative map of the last-known value of every synchronized
/// player property. Keys are unique; an upsert replaces the stored
/// value (last write wins) and entries are never removed.
pub struct State {
    entries: Vec<(String, String)>,
}

impl State {
    /// The stored key/value pairs, in insertion order.
    pub closed spec fn pairs(&self) -> Seq<(Seq<char>, Seq<char>)> {
        Seq::new(self.entries@.len() as nat, |i: int| (self.entries@[i].0@, self.entries@[i].1@))
    }

    /// Well-formed: keys are unique and no stored text contains NUL.
    pub open spec fn wf(&self) -> bool {
        keys_unique(self.pairs()) && pairs_no_nul(self.pairs())
    }

    /// A store with no entries.
    pub fn empty() -> (s: State)
        ensures
            s.wf(),
            s@ =~= Map::<Seq<char>, Seq<char>>::empty(),
            s.pairs() =~= Seq::<(Seq<char>, Seq<char>)>::empty(),
    {
        let s = State { entries: Vec::new() };
        proof {
            assert(s.pairs() =~= Seq::<(Seq<char>, Seq<char>)>::empty());
        }
        s
    }

    /// Index of the entry holding `property`, if any.
    fn find_index(&self, property: &String) -> (r: Option<usize>)
        ensures
            match r {
                Some(i) => i < self.pairs().len() && self.pairs()[i as int].0 == property@,
                None => forall|j: int| 0 <= j < self.pairs().len() ==> (#[trigger] self.pairs()[j]).0 != property@,
            },
    {
        let n = self.entries.len();
        let mut i: usize = 0;
        while i < n
            invariant
                n == self.entries@.len(),
                i <= n,
                forall|j: int| 0 <= j < i ==> (#[trigger] self.pairs()[j]).0 != property@,
            decreases n - i,
        {
            if self.entries[i].0 == *property {
                proof {
                    assert(self.pairs()[i as int].0 == self.entries@[i as int].0@);
                }
                return Some(i);
            }
            proof {
                assert(self.pairs()[i as int].0 == self.entries@[i as int].0@);
            }
            i = i + 1;
        }
        None
    }

    /// Replace the stored value for `property`, creating the entry on
    /// first sight, and hand back the previous value if there was one.
    pub fn update(&mut self, property: String, value: String) -> (prev: Option<String>)
        requires
            old(self).wf(),
            no_nul(property@),
            no_nul(value@),
        ensures
            final(self).wf(),
            final(self)@ == old(self)@.insert(property@, value@),
            match prev {
                Some(p) => old(self)@.dom().contains(property@) && p@ == old(self)@[property@],
                None => !old(self)@.dom().contains(property@),
            },
            prev is None ==> final(self).pairs() =~= old(self).pairs().push((property@, value@)),
            prev is Some ==> exists|i: int|
                0 <= i < old(self).pairs().len()
                && (#[trigger] old(self).pairs()[i]).0 == property@
                && final(self).pairs() =~= old(self).pairs().update(i, (property@, value@)),
    {
        let ghost old_pairs = self.pairs();
        match self.find_index(&property) {
            Some(i) => {
                let ghost gi = i as int;
                let mut pair = (property, value);
                core::mem::swap(&mut self.entries[i], &mut pair);
                proof {
                    assert(self.pairs() =~= old_pairs.update(gi, (old_pairs[gi].0, self.pairs()[gi].1)));
                    lemma_map_of_pairs_update(old_pairs, gi, self.pairs()[gi].1);
                    lemma_map_of_pairs_at(old_pairs, gi);
                    assert(self@ =~= old(self)@.insert(self.pairs()[gi].0, self.pairs()[gi].1));
                }
                Some(pair.1)
            }
            None => {
                let ghost p = property@;
                let ghost v = value@;
                self.entries.push((property, value));
                proof {
                    assert(self.pairs() =~= old_pairs.push((p, v)));
                    assert(self.pairs().drop_last() =~= old_pairs);
                    lemma_map_of_pairs_dom(old_pairs, p);
                }
                None
            }
        }
    }

    /// Atomic point-in-time copy of every entry, in stored order, used
    /// to seed a joining peer.
    pub fn snapshot(&self) -> (r: Vec<(String, String)>)
        ensures
            r@.len() == self.pairs().len(),
            forall|i: int| 0 <= i < r@.len()
                ==> ((#[trigger] r@[i]).0@ == self.pairs()[i].0 && r@[i].1@ == self.pairs()[i].1),
    {
        let n = self.entries.len();
        let mut r: Vec<(String, String)> = Vec::new();
        let mut i: usize = 0;
        while i < n
            invariant
                n == self.entries@.len(),
                i <= n,
                r@.len() == i,
                forall|j: int| 0 <= j < i
                    ==> ((#[trigger] r@[j]).0@ == self.pairs()[j].0 && r@[j].1@ == self.pairs()[j].1),
            decreases n - i,
        {
            r.push((self.entries[i].0.clone(), self.entries[i].1.clone()));
            proof {
                assert(self.pairs()[i as int].0 == self.entries@[i as int].0@);
            }
            i = i + 1;
        }
        r
    }

    /// The property-update frames that seed a joining session: one
    /// frame per stored entry, in stored order — the full current
    /// state, with no gap and no duplicate.
    pub fn sync_frames(&self) -> (r: Vec<Vec<u8>>)
        requires
            self.wf(),
        ensures
            r@.len() == self.pairs().len(),
            forall|i: int| 0 <= i < r@.len()
                ==> (#[trigger] r@[i])@ == frame_bytes(self.pairs()[i].0, self.pairs()[i].1),
    {
        let n = self.entries.len();
        let mut r: Vec<Vec<u8>> = Vec::new();
        let mut i: usize = 0;
        while i < n
            invariant
                n == self.entries@.len(),
                i <= n,
                r@.len() == i,
                forall|j: int| 0 <= j < i
                    ==> (#[trigger] r@[j])@ == frame_bytes(self.pairs()[j].0, self.pairs()[j].1),
            decreases n - i,
        {
            let m = UpdatePropertyMessage::new(
                self.entries[i].0.clone(),
                self.entries[i].1.clone(),
            );
            r.push(m.encode());
            proof {
                assert(self.pairs()[i as int].0 == self.entries@[i as int].0@);
            }
            i = i + 1;
        }
        r
    }
}

impl View for State {
    type V = Map<Seq<char>, Seq<char>>;

    open spec fn view(&self) -> Map<Seq<char>, Seq<char>> {
        map_of_pairs(self.pairs())
    }
}

/// Law: one upsert is as good as two. Writing the same value for the
/// same property twice leaves the map exactly as one write does.
pub proof fn lemma_upsert_idempotent(m: Map<Seq<char>, Seq<char>>, k: Seq<char>, v: Seq<char>)
    ensures
        m.insert(k, v).insert(k, v) =~= m.insert(k, v),
{
}

} // verus!
