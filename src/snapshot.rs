//! The snapshot being harvested: records keyed by map identifier.
use vstd::prelude::*;
use crate::record::{MapMetadata, MetadataView};

verus! {

/// The map that a list of (identifier, record) pairs describes; a later pair
/// wins over an earlier one with the same identifier.
pub open spec fn pairs_map(s: Seq<(String, MapMetadata)>) -> Map<Seq<char>, MetadataView>
    decreases s.len(),
{
    if s.len() == 0 {
        Map::empty()
    } else {
        pairs_map(s.drop_last()).insert(s.last().0@, s.last().1@)
    }
}

/// No identifier occurs twice.
pub open spec fn unique_ids(s: Seq<(String, MapMetadata)>) -> bool {
    forall|i: int, j: int|
        0 <= i < s.len() && 0 <= j < s.len() && i != j ==> (#[trigger] s[i]).0@ != (#[trigger] s[j]).0@
}

proof fn lemma_pairs_map_lookup(s: Seq<(String, MapMetadata)>, k: Seq<char>)
    requires
        unique_ids(s),
    ensures
        pairs_map(s).contains_key(k) <==> exists|i: int| 0 <= i < s.len() && (#[trigger] s[i]).0@ == k,
        forall|i: int| 0 <= i < s.len() && (#[trigger] s[i]).0@ == k ==> pairs_map(s)[k] == s[i].1@,
        pairs_map(s).dom().finite(),
        pairs_map(s).dom().len() == s.len(),
    decreases s.len(),
{
    if s.len() > 0 {
        let p = s.drop_last();
        assert(unique_ids(p)) by {
            assert forall|i: int, j: int|
                0 <= i < p.len() && 0 <= j < p.len() && i != j implies (#[trigger] p[i]).0@ != (
                #[trigger] p[j]).0@ by {
                assert(p[i] == s[i] && p[j] == s[j]);
            }
        }
        lemma_pairs_map_lookup(p, k);
        lemma_pairs_map_lookup(p, s.last().0@);
        let n = s.len() - 1;
        if pairs_map(p).contains_key(s.last().0@) {
            let i = choose|i: int| 0 <= i < p.len() && (#[trigger] p[i]).0@ == s.last().0@;
            assert(s[i] == p[i]);
            assert(s[n] == s.last());
        }
        if pairs_map(s).contains_key(k) && k != s.last().0@ {
            let i = choose|i: int| 0 <= i < p.len() && (#[trigger] p[i]).0@ == k;
            assert(s[i] == p[i]);
        }
        assert forall|i: int| 0 <= i < s.len() && (#[trigger] s[i]).0@ == k implies pairs_map(s)[k]
            == s[i].1@ by {
            if i < n {
                assert(p[i] == s[i]);
                assert(s[n].0@ != s[i].0@);
            }
        }
        if exists|i: int| 0 <= i < s.len() && (#[trigger] s[i]).0@ == k {
            let i = choose|i: int| 0 <= i < s.len() && (#[trigger] s[i]).0@ == k;
            if i < n {
                assert(p[i] == s[i]);
            }
        }
    }
}

proof fn lemma_pairs_map_update(s: Seq<(String, MapMetadata)>, j: int, x: (String, MapMetadata))
    requires
        unique_ids(s),
        0 <= j < s.len(),
        s[j].0@ == x.0@,
    ensures
        pairs_map(s.update(j, x)) == pairs_map(s).insert(x.0@, x.1@),
    decreases s.len(),
{
    let t = s.update(j, x);
    let n = s.len() - 1;
    if j == n {
        assert(t.drop_last() =~= s.drop_last());
        assert(pairs_map(t) =~= pairs_map(s).insert(x.0@, x.1@));
    } else {
        let p = s.drop_last();
        assert(unique_ids(p)) by {
            assert forall|a: int, b: int|
                0 <= a < p.len() && 0 <= b < p.len() && a != b implies (#[trigger] p[a]).0@ != (
                #[trigger] p[b]).0@ by {
                assert(p[a] == s[a] && p[b] == s[b]);
            }
        }
        lemma_pairs_map_update(p, j, x);
        assert(t.drop_last() =~= p.update(j, x));
        assert(s[n].0@ != s[j].0@);
        assert(pairs_map(t) =~= pairs_map(s).insert(x.0@, x.1@));
    }
}

/// All records harvested so far, at most one per map identifier.
pub struct MapList {
    map_metadata: Vec<(String, MapMetadata)>,
}

impl View for MapList {
    type V = Map<Seq<char>, MetadataView>;

    closed spec fn view(&self) -> Map<Seq<char>, MetadataView> {
        pairs_map(self.map_metadata@)
    }
}

impl MapList {
    /// Identifiers are unique among the stored pairs.
    pub closed spec fn wf(&self) -> bool {
        unique_ids(self.map_metadata@)
    }

    /// An empty snapshot.
    pub fn new() -> (r: MapList)
        ensures
            r.wf(),
            r@ == Map::<Seq<char>, MetadataView>::empty(),
    {
        MapList { map_metadata: Vec::new() }
    }

    /// The number of maps in the snapshot.
    pub fn len(&self) -> (r: usize)
        requires
            self.wf(),
        ensures
            self@.dom().finite(),
            r == self@.dom().len(),
    {
        proof {
            lemma_pairs_map_lookup(self.map_metadata@, Seq::empty());
        }
        self.map_metadata.len()
    }

    /// The record stored for `id`, if any.
    pub fn get(&self, id: &String) -> (r: Option<&MapMetadata>)
        requires
            self.wf(),
        ensures
            r is Some <==> self@.contains_key(id@),
            r is Some ==> r->0@ == self@[id@],
    {
        proof {
            lemma_pairs_map_lookup(self.map_metadata@, id@);
        }
        let mut i: usize = 0;
        while i < self.map_metadata.len()
            invariant
                i <= self.map_metadata@.len(),
                unique_ids(self.map_metadata@),
                forall|k: int| 0 <= k < i ==> (#[trigger] self.map_metadata@[k]).0@ != id@,
                pairs_map(self.map_metadata@).contains_key(id@) <==> exists|k: int|
                    0 <= k < self.map_metadata@.len() && (#[trigger] self.map_metadata@[k]).0@ == id@,
                forall|k: int|
                    0 <= k < self.map_metadata@.len() && (#[trigger] self.map_metadata@[k]).0@ == id@
                        ==> pairs_map(self.map_metadata@)[id@] == self.map_metadata@[k].1@,
            decreases self.map_metadata@.len() - i,
        {
            if self.map_metadata[i].0 == *id {
                return Some(&self.map_metadata[i].1);
            }
            i = i + 1;
        }
        None
    }

    /// Stores `metadata` under `id`, replacing any record stored there.
    pub fn insert(&mut self, id: String, metadata: MapMetadata)
        requires
            old(self).wf(),
        ensures
            final(self).wf(),
            final(self)@ == old(self)@.insert(id@, metadata@),
    {
        let mut i: usize = 0;
        while i < self.map_metadata.len()
            invariant
                i <= self.map_metadata@.len(),
                self.map_metadata@ == old(self).map_metadata@,
                unique_ids(self.map_metadata@),
                forall|k: int| 0 <= k < i ==> (#[trigger] self.map_metadata@[k]).0@ != id@,
            decreases self.map_metadata@.len() - i,
        {
            if self.map_metadata[i].0 == id {
                proof {
                    lemma_pairs_map_update(self.map_metadata@, i as int, (id, metadata));
                }
                let ghost before = self.map_metadata@;
                self.map_metadata.set(i, (id, metadata));
                assert forall|a: int, b: int|
                    0 <= a < self.map_metadata@.len() && 0 <= b < self.map_metadata@.len() && a
                        != b implies (#[trigger] self.map_metadata@[a]).0@
                    != (#[trigger] self.map_metadata@[b]).0@ by {
                    if a != i && b != i {
                        assert(before[a].0@ != before[b].0@);
                    } else if a == i {
                        assert(before[b].0@ != before[a].0@);
                    } else {
                        assert(before[a].0@ != before[b].0@);
                    }
                }
                return;
            }
            i = i + 1;
        }
        let ghost before = self.map_metadata@;
        self.map_metadata.push((id, metadata));
        assert(self.map_metadata@.drop_last() =~= before);
        assert forall|a: int, b: int|
            0 <= a < self.map_metadata@.len() && 0 <= b < self.map_metadata@.len() && a
                != b implies (#[trigger] self.map_metadata@[a]).0@
            != (#[trigger] self.map_metadata@[b]).0@ by {
            if a < before.len() && b < before.len() {
                assert(before[a] == self.map_metadata@[a] && before[b] == self.map_metadata@[b]);
            } else if a < before.len() {
                assert(before[a] == self.map_metadata@[a]);
            } else {
                assert(before[b] == self.map_metadata@[b]);
            }
        }
    }

    /// The stored (identifier, record) pairs, in no particular order.
    pub fn entries(&self) -> (r: &Vec<(String, MapMetadata)>)
        requires
            self.wf(),
        ensures
            unique_ids(r@),
            pairs_map(r@) == self@,
    {
        &self.map_metadata
    }
}

} // verus!
