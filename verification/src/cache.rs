//! The substream cache: the single source of truth for "is there already an
//! open outbound substream to peer P". Substream handles are carried as
//! opaque numeric identifiers; the plumbing around the engine maps them to
//! live streams. The cache is an association list with pairwise-distinct
//! peer keys, viewed as a map from peer identifier to substream handle.

use vstd::prelude::*;

use crate::message::NodeId;

verus! {

/// One cached entry: an open outbound substream handle for a peer.
pub struct CacheEntry {
    pub peer: NodeId,
    pub substream: u64,
}

/// Per-peer table of currently open outbound substreams.
pub struct SubstreamCache {
    entries: Vec<CacheEntry>,
}

/// Pairwise-distinct peer keys.
spec fn distinct_keys(s: Seq<CacheEntry>) -> bool {
    forall|i: int, j: int|
        0 <= i < j < s.len() ==> #[trigger] s[i].peer@ != #[trigger] s[j].peer@
}

/// The map an entry sequence denotes.
spec fn map_of(s: Seq<CacheEntry>) -> Map<Seq<u8>, u64> {
    Map::new(
        |k: Seq<u8>| exists|i: int| 0 <= i < s.len() && #[trigger] s[i].peer@ == k,
        |k: Seq<u8>|
            s[choose|i: int| 0 <= i < s.len() && #[trigger] s[i].peer@ == k].substream,
    )
}

/// With distinct keys, any index is the witness for its own key: the map
/// holds that entry's substream under that entry's peer.
proof fn lemma_value_at_witness(s: Seq<CacheEntry>, i: int)
    requires
        distinct_keys(s),
        0 <= i < s.len(),
    ensures
        map_of(s).contains_key(s[i].peer@),
        map_of(s)[s[i].peer@] == s[i].substream,
{
    let k = s[i].peer@;
    assert(0 <= i < s.len() && s[i].peer@ == k);
    let j = choose|j: int| 0 <= j < s.len() && #[trigger] s[j].peer@ == k;
    if i < j {
        assert(s[i].peer@ != s[j].peer@);
    } else if j < i {
        assert(s[j].peer@ != s[i].peer@);
    }
    assert(j == i);
}

impl View for SubstreamCache {
    type V = Map<Seq<u8>, u64>;

    closed spec fn view(&self) -> Map<Seq<u8>, u64> {
        map_of(self.entries@)
    }
}

impl SubstreamCache {
    /// The cache's internal invariant: no peer appears twice.
    pub closed spec fn wf(&self) -> bool {
        distinct_keys(self.entries@)
    }

    /// An empty cache.
    pub fn new() -> (c: SubstreamCache)
        ensures
            c.wf(),
            c@ == Map::<Seq<u8>, u64>::empty(),
    {
        let c = SubstreamCache { entries: Vec::new() };
        proof {
            assert(c@ =~= Map::<Seq<u8>, u64>::empty());
        }
        c
    }

    /// Looks up the cached substream handle for `peer`, if any.
    pub fn get(&self, peer: &NodeId) -> (r: Option<u64>)
        requires
            self.wf(),
        ensures
            r matches Some(id) ==> self@.contains_key(peer@) && self@[peer@] == id,
            r is None ==> !self@.contains_key(peer@),
    {
        let n: usize = self.entries.len();
        let mut i: usize = 0;
        while i < n
            invariant
                0 <= i <= n,
                n == self.entries@.len(),
                self.wf(),
                forall|k: int| 0 <= k < i ==> #[trigger] self.entries@[k].peer@ != peer@,
            decreases n - i,
        {
            if self.entries[i].peer.equals(peer) {
                proof {
                    lemma_value_at_witness(self.entries@, i as int);
                }
                return Some(self.entries[i].substream);
            }
            i = i + 1;
        }
        proof {
            assert forall|j: int| 0 <= j < self.entries@.len() implies #[trigger] self
                .entries@[j].peer@ != peer@ by {}
        }
        None
    }

    /// Whether an open substream to `peer` is cached.
    pub fn contains(&self, peer: &NodeId) -> (r: bool)
        requires
            self.wf(),
        ensures
            r == self@.contains_key(peer@),
    {
        match self.get(peer) {
            Some(_) => true,
            None => false,
        }
    }

    /// Records a freshly opened substream for a peer that has none cached.
    pub fn insert(&mut self, peer: NodeId, substream: u64)
        requires
            old(self).wf(),
            !old(self)@.contains_key(peer@),
        ensures
            final(self).wf(),
            final(self)@ == old(self)@.insert(peer@, substream),
    {
        let ghost olds = self.entries@;
        let ghost k = peer@;
        self.entries.push(CacheEntry { peer, substream });
        proof {
            let news = self.entries@;
            assert forall|i: int, j: int| 0 <= i < j < news.len() implies #[trigger] news[i].peer@
                != #[trigger] news[j].peer@ by {
                if j == news.len() - 1 {
                    // the new entry's key was absent: no old index holds it
                    assert(news[i] == olds[i]);
                    if news[i].peer@ == k {
                        assert(map_of(olds).contains_key(k));
                    }
                }
            }
            assert forall|q: Seq<u8>| true implies (map_of(news).contains_key(q) <==> map_of(
                olds,
            ).insert(k, substream).contains_key(q)) by {
                if q == k {
                    assert(news[news.len() - 1].peer@ == q);
                } else {
                    if map_of(news).contains_key(q) {
                        let i = choose|i: int|
                            0 <= i < news.len() && #[trigger] news[i].peer@ == q;
                        assert(i < news.len() - 1);
                        assert(olds[i].peer@ == q);
                    }
                    if map_of(olds).contains_key(q) {
                        let i = choose|i: int|
                            0 <= i < olds.len() && #[trigger] olds[i].peer@ == q;
                        assert(news[i].peer@ == q);
                    }
                }
            }
            assert forall|q: Seq<u8>| map_of(news).contains_key(q) implies map_of(news)[q]
                == map_of(olds).insert(k, substream)[q] by {
                if q == k {
                    lemma_value_at_witness(news, news.len() - 1);
                } else {
                    let i = choose|i: int| 0 <= i < news.len() && #[trigger] news[i].peer@ == q;
                    assert(i < news.len() - 1);
                    assert(olds[i].peer@ == q);
                    lemma_value_at_witness(news, i);
                    lemma_value_at_witness(olds, i);
                }
            }
            assert(map_of(news) =~= map_of(olds).insert(k, substream));
        }
    }

    /// Drops the cached substream for `peer`, so the next send to that peer
    /// re-establishes a channel from scratch. Removing an absent entry is a
    /// no-op: invalidation is idempotent.
    pub fn invalidate(&mut self, peer: &NodeId)
        requires
            old(self).wf(),
        ensures
            final(self).wf(),
            final(self)@ == old(self)@.remove(peer@),
    {
        let ghost olds = self.entries@;
        let ghost k = peer@;
        let n: usize = self.entries.len();
        let mut i: usize = 0;
        while i < n
            invariant
                0 <= i <= n,
                n == self.entries@.len(),
                self.entries@ == olds,
                olds == old(self).entries@,
                distinct_keys(olds),
                forall|j: int| 0 <= j < i ==> #[trigger] olds[j].peer@ != k,
                k == peer@,
            decreases n - i,
        {
            if self.entries[i].peer.equals(peer) {
                self.entries.remove(i);
                proof {
                    let news = self.entries@;
                    let ii = i as int;
                    assert(news =~= olds.subrange(0, ii) + olds.subrange(ii + 1, olds.len() as int));
                    // index map between old and new entries
                    assert forall|j: int| 0 <= j < news.len() implies #[trigger] news[j] == (if j
                        < ii {
                        olds[j]
                    } else {
                        olds[j + 1]
                    }) by {}
                    assert forall|a: int, b: int| 0 <= a < b < news.len() implies #[trigger] news[a].peer@
                        != #[trigger] news[b].peer@ by {
                        let oa = if a < ii { a } else { a + 1 };
                        let ob = if b < ii { b } else { b + 1 };
                        assert(olds[oa].peer@ != olds[ob].peer@);
                    }
                    assert forall|q: Seq<u8>| true implies (map_of(news).contains_key(q) <==> map_of(
                        olds,
                    ).remove(k).contains_key(q)) by {
                        if map_of(news).contains_key(q) {
                            let j = choose|j: int|
                                0 <= j < news.len() && #[trigger] news[j].peer@ == q;
                            let oj = if j < ii { j } else { j + 1 };
                            assert(olds[oj].peer@ == q);
                            if q == k {
                                if oj < ii {
                                    assert(olds[oj].peer@ != olds[ii].peer@);
                                } else {
                                    assert(olds[ii].peer@ != olds[oj].peer@);
                                }
                            }
                        }
                        if map_of(olds).remove(k).contains_key(q) {
                            let j = choose|j: int|
                                0 <= j < olds.len() && #[trigger] olds[j].peer@ == q;
                            assert(q != k);
                            assert(j != ii);
                            if j < ii {
                                assert(news[j].peer@ == q);
                            } else {
                                assert(news[j - 1].peer@ == q);
                            }
                        }
                    }
                    assert forall|q: Seq<u8>| map_of(news).contains_key(q) implies map_of(news)[q]
                        == map_of(olds).remove(k)[q] by {
                        let j = choose|j: int| 0 <= j < news.len() && #[trigger] news[j].peer@ == q;
                        let oj = if j < ii { j } else { j + 1 };
                        assert(olds[oj].peer@ == q);
                        if q == k {
                            if oj < ii {
                                assert(olds[oj].peer@ != olds[ii].peer@);
                            } else {
                                assert(olds[ii].peer@ != olds[oj].peer@);
                            }
                        }
                        assert(q != k);
                        lemma_value_at_witness(news, j);
                        lemma_value_at_witness(olds, oj);
                    }
                    assert(map_of(news) =~= map_of(olds).remove(k));
                }
                return ;
            }
            i = i + 1;
        }
        proof {
            assert forall|j: int| 0 <= j < olds.len() implies #[trigger] olds[j].peer@ != k by {}
            if map_of(olds).contains_key(k) {
                let j = choose|j: int| 0 <= j < olds.len() && #[trigger] olds[j].peer@ == k;
                assert(false);
            }
            assert(map_of(olds) =~= map_of(olds).remove(k));
        }
    }

    /// Number of cached entries.
    pub fn len(&self) -> (n: usize)
        requires
            self.wf(),
        ensures
            n == self@.dom().len(),
    {
        proof {
            lemma_len_matches(self.entries@);
        }
        self.entries.len()
    }

    /// Drops every cached entry: done when the engine stops and releases
    /// all substream handles.
    pub fn clear(&mut self)
        ensures
            final(self).wf(),
            final(self)@ == Map::<Seq<u8>, u64>::empty(),
    {
        self.entries.clear();
        proof {
            assert(self@ =~= Map::<Seq<u8>, u64>::empty());
        }
    }
}

/// With distinct keys, the denoted map's domain has exactly one element per
/// entry.
proof fn lemma_len_matches(s: Seq<CacheEntry>)
    requires
        distinct_keys(s),
    ensures
        map_of(s).dom().len() == s.len(),
        map_of(s).dom().finite(),
    decreases s.len(),
{
    if s.len() == 0 {
        assert(map_of(s).dom() =~= Set::<Seq<u8>>::empty());
    } else {
        let front = s.drop_last();
        lemma_len_matches(front);
        let k = s.last().peer@;
        assert forall|q: Seq<u8>| true implies (map_of(s).dom().contains(q) <==> map_of(
            front,
        ).dom().contains(q) || q == k) by {
            if map_of(s).dom().contains(q) {
                let i = choose|i: int| 0 <= i < s.len() && #[trigger] s[i].peer@ == q;
                if i < s.len() - 1 {
                    assert(front[i].peer@ == q);
                }
            }
            if map_of(front).dom().contains(q) {
                let i = choose|i: int| 0 <= i < front.len() && #[trigger] front[i].peer@ == q;
                assert(s[i].peer@ == q);
            }
            if q == k {
                assert(s[s.len() - 1].peer@ == q);
            }
        }
        assert(map_of(s).dom() =~= map_of(front).dom().insert(k));
        if map_of(front).dom().contains(k) {
            let i = choose|i: int| 0 <= i < front.len() && #[trigger] front[i].peer@ == k;
            assert(s[i].peer@ != s[s.len() - 1].peer@);
            assert(false);
        }
        vstd::set::axiom_set_insert_len(map_of(front).dom(), k);
    }
}

} // verus!
