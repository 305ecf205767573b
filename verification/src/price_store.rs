//! Latest-price store: one snapshot per token, the newest replacing the old.
//!
//! The store is a compact association list whose abstract value is a map
//! from token (as a sequence of characters) to the snapshot model. The
//! well-formedness invariant keeps tokens distinct, entries keyed by their
//! own token field, and prices strictly positive.

use vstd::prelude::*;

use crate::types::PriceData;
use crate::types::SnapshotModel;

verus! {

/// Abstract value of a sequence of snapshots: later entries win, as in a map
/// built by inserting each entry in order.
pub open spec fn snapshots_map(s: Seq<PriceData>) -> Map<Seq<char>, SnapshotModel>
    decreases s.len(),
{
    if s.len() == 0 {
        Map::empty()
    } else {
        snapshots_map(s.drop_last()).insert(s.last()@.token, s.last()@)
    }
}

/// A key is in the map exactly when some entry carries it.
pub proof fn lemma_snapshots_map_contains(s: Seq<PriceData>, k: Seq<char>)
    ensures
        snapshots_map(s).contains_key(k) <==> exists|i: int|
            0 <= i < s.len() && s[i]@.token == k,
    decreases s.len(),
{
    if s.len() > 0 {
        lemma_snapshots_map_contains(s.drop_last(), k);
        if s.last()@.token == k {
            assert(s[s.len() - 1]@.token == k);
        } else if snapshots_map(s.drop_last()).contains_key(k) {
            let i = choose|i: int| 0 <= i < s.drop_last().len() && s.drop_last()[i]@.token == k;
            assert(s[i]@.token == k);
        } else if exists|i: int| 0 <= i < s.len() && s[i]@.token == k {
            let i = choose|i: int| 0 <= i < s.len() && s[i]@.token == k;
            assert(s.drop_last()[i]@.token == k);
        }
    }
}

/// Entries carry pairwise distinct tokens.
pub open spec fn snapshots_distinct(s: Seq<PriceData>) -> bool {
    forall|i: int, j: int|
        0 <= i < j < s.len() ==> s[i]@.token != s[j]@.token
}

/// With distinct tokens, the map agrees with every entry.
pub proof fn lemma_snapshots_map_get(s: Seq<PriceData>, i: int)
    requires
        snapshots_distinct(s),
        0 <= i < s.len(),
    ensures
        snapshots_map(s).contains_key(s[i]@.token),
        snapshots_map(s)[s[i]@.token] == s[i]@,
    decreases s.len(),
{
    lemma_snapshots_map_contains(s, s[i]@.token);
    if i < s.len() - 1 {
        assert(s[i]@.token != s.last()@.token);
        assert(s.drop_last()[i] == s[i]);
        lemma_snapshots_map_get(s.drop_last(), i);
    }
}

/// Replacing the entry at `i` by one with the same token updates the map at
/// that token alone.
pub proof fn lemma_snapshots_map_update(s: Seq<PriceData>, i: int, d: PriceData)
    requires
        snapshots_distinct(s),
        0 <= i < s.len(),
        d@.token == s[i]@.token,
    ensures
        snapshots_distinct(s.update(i, d)),
        snapshots_map(s.update(i, d)) == snapshots_map(s).insert(d@.token, d@),
{
    let s2 = s.update(i, d);
    let k = d@.token;
    assert forall|k2: Seq<char>|
        snapshots_map(s2).contains_key(k2) == snapshots_map(s).insert(k, d@).contains_key(
            k2,
        ) by {
        lemma_snapshots_map_contains(s2, k2);
        lemma_snapshots_map_contains(s, k2);
        if k2 == k {
            assert(s2[i]@.token == k2);
        } else {
            if exists|j: int| 0 <= j < s.len() && s[j]@.token == k2 {
                let j = choose|j: int| 0 <= j < s.len() && s[j]@.token == k2;
                assert(s2[j]@.token == k2);
            }
            if exists|j: int| 0 <= j < s2.len() && s2[j]@.token == k2 {
                let j = choose|j: int| 0 <= j < s2.len() && s2[j]@.token == k2;
                assert(s[j]@.token == k2);
            }
        }
    }
    assert forall|k2: Seq<char>| #[trigger]
        snapshots_map(s2).contains_key(k2) implies snapshots_map(s2)[k2] == snapshots_map(
        s,
    ).insert(k, d@)[k2] by {
        lemma_snapshots_map_contains(s2, k2);
        let j = choose|j: int| 0 <= j < s2.len() && s2[j]@.token == k2;
        lemma_snapshots_map_get(s2, j);
        if k2 == k {
            assert(j == i);
        } else {
            assert(j != i);
            assert(s[j]@.token == k2);
            lemma_snapshots_map_get(s, j);
        }
    }
    assert(snapshots_map(s2) =~= snapshots_map(s).insert(k, d@));
}

/// Appending an entry with a fresh token inserts it into the map.
pub proof fn lemma_snapshots_map_push(s: Seq<PriceData>, d: PriceData)
    ensures
        snapshots_map(s.push(d)) == snapshots_map(s).insert(d@.token, d@),
{
    assert(s.push(d).drop_last() =~= s);
    assert(s.push(d).last() == d);
}

/// Concurrent mapping from token to its latest price snapshot. Updates for a
/// token replace the prior snapshot; no history is kept.
pub struct PriceStore {
    entries: Vec<PriceData>,
}

impl View for PriceStore {
    type V = Map<Seq<char>, SnapshotModel>;

    closed spec fn view(&self) -> Map<Seq<char>, SnapshotModel> {
        snapshots_map(self.entries@)
    }
}

impl PriceStore {
    /// Internal invariant: distinct tokens, strictly positive prices.
    pub closed spec fn wf(&self) -> bool {
        &&& snapshots_distinct(self.entries@)
        &&& forall|i: int| 0 <= i < self.entries@.len() ==> self.entries@[i]@.price > 0
    }

    /// An empty store.
    pub fn new() -> (r: Self)
        ensures
            r.wf(),
            r@ == Map::<Seq<char>, SnapshotModel>::empty(),
    {
        PriceStore { entries: Vec::new() }
    }

    /// Index of the entry for `token`, if one exists.
    fn find_index(&self, token: &String) -> (r: Option<usize>)
        ensures
            match r {
                Some(i) => 0 <= i < self.entries@.len() && self.entries@[i as int]@.token
                    == token@,
                None => forall|i: int|
                    0 <= i < self.entries@.len() ==> self.entries@[i]@.token != token@,
            },
    {
        let n = self.entries.len();
        let mut i: usize = 0;
        while i < n
            invariant
                n == self.entries@.len(),
                0 <= i <= n,
                forall|j: int| 0 <= j < i ==> self.entries@[j]@.token != token@,
            decreases n - i,
        {
            if self.entries[i].token == *token {
                return Some(i);
            }
            i = i + 1;
        }
        None
    }

    /// Replaces the stored snapshot for the snapshot's token; there is no
    /// error condition.
    pub fn upsert(&mut self, snapshot: PriceData)
        requires
            old(self).wf(),
            snapshot.price > 0,
        ensures
            final(self).wf(),
            final(self)@ == old(self)@.insert(snapshot@.token, snapshot@),
    {
        let ghost s0 = self.entries@;
        match self.find_index(&snapshot.token) {
            Some(i) => {
                proof {
                    lemma_snapshots_map_update(s0, i as int, snapshot);
                }
                self.entries.set(i, snapshot);
            },
            None => {
                proof {
                    lemma_snapshots_map_push(s0, snapshot);
                }
                self.entries.push(snapshot);
            },
        }
    }

    /// The latest snapshot for `token`, or `None` if the token was never
    /// observed.
    pub fn get(&self, token: &String) -> (r: Option<&PriceData>)
        requires
            self.wf(),
        ensures
            r is Some <==> self@.contains_key(token@),
            r matches Some(d) ==> d@ == self@[token@],
    {
        proof {
            lemma_snapshots_map_contains(self.entries@, token@);
        }
        match self.find_index(token) {
            Some(i) => {
                proof {
                    lemma_snapshots_map_get(self.entries@, i as int);
                }
                Some(&self.entries[i])
            },
            None => None,
        }
    }

    /// The set of currently known tokens, one copy each.
    pub fn tokens(&self) -> (r: Vec<String>)
        requires
            self.wf(),
        ensures
            forall|i: int| 0 <= i < r@.len() ==> self@.contains_key(#[trigger] r@[i]@),
            forall|k: Seq<char>| #[trigger]
                self@.contains_key(k) ==> exists|i: int| 0 <= i < r@.len() && r@[i]@ == k,
            forall|i: int, j: int| 0 <= i < j < r@.len() ==> r@[i]@ != r@[j]@,
    {
        let n = self.entries.len();
        let mut r: Vec<String> = Vec::new();
        let mut i: usize = 0;
        while i < n
            invariant
                n == self.entries@.len(),
                0 <= i <= n,
                self.wf(),
                r@.len() == i,
                forall|j: int| 0 <= j < i ==> r@[j]@ == self.entries@[j]@.token,
            decreases n - i,
        {
            r.push(self.entries[i].token.clone());
            i = i + 1;
        }
        proof {
            assert forall|j: int| 0 <= j < r@.len() implies self@.contains_key(
                #[trigger] r@[j]@,
            ) by {
                lemma_snapshots_map_contains(self.entries@, r@[j]@);
            }
            assert forall|k: Seq<char>| #[trigger]
                self@.contains_key(k) implies exists|j: int|
                0 <= j < r@.len() && r@[j]@ == k by {
                lemma_snapshots_map_contains(self.entries@, k);
                let j = choose|j: int|
                    0 <= j < self.entries@.len() && self.entries@[j]@.token == k;
                assert(r@[j]@ == k);
            }
        }
        r
    }
}

} // verus!
