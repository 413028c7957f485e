//! The flow/filename correlator: a keyed cache from a flow identifier to
//! the capture-file name observed on a companion record.
//!
//! `set` overwrites unconditionally; `get` reads without removing.
//! Entries live as long as the cache does: there is no eviction.
use vstd::prelude::*;

verus! {

/// The correlation cache. Abstractly it is a map from flow identifier to
/// the characters of the remembered filename.
pub struct FilenameCache {
    entries: Vec<(i64, String)>,
}

/// The map an entry sequence denotes; a later entry for a key wins.
pub open spec fn entries_map(es: Seq<(i64, String)>) -> Map<int, Seq<char>>
    decreases es.len(),
{
    if es.len() == 0 {
        Map::empty()
    } else {
        entries_map(es.drop_last()).insert(es.last().0 as int, es.last().1@)
    }
}

/// Each flow identifier occurs in at most one entry.
pub open spec fn distinct_keys(es: Seq<(i64, String)>) -> bool {
    forall|i: int, j: int| 0 <= i < j < es.len() ==> es[i].0 != es[j].0
}

proof fn lemma_entries_map_props(es: Seq<(i64, String)>)
    ensures
        forall|k: int|
            #[trigger] entries_map(es).contains_key(k) ==> exists|i: int|
                0 <= i < es.len() && es[i].0 == k,
        forall|i: int|
            0 <= i < es.len() ==> entries_map(es).contains_key(#[trigger] es[i].0 as int),
        distinct_keys(es) ==> forall|i: int|
            0 <= i < es.len() ==> entries_map(es)[#[trigger] es[i].0 as int] == es[i].1@,
    decreases es.len(),
{
    if es.len() > 0 {
        let es0 = es.drop_last();
        lemma_entries_map_props(es0);
        assert forall|k: int| #[trigger] entries_map(es).contains_key(k) implies exists|i: int|
            0 <= i < es.len() && es[i].0 == k by {
            if k == es.last().0 as int {
                assert(es[es.len() - 1].0 == k);
            } else {
                let i = choose|i: int| 0 <= i < es0.len() && es0[i].0 == k;
                assert(es[i].0 == k);
            }
        }
        assert forall|i: int| 0 <= i < es.len() implies entries_map(es).contains_key(
            #[trigger] es[i].0 as int,
        ) by {
            if i < es.len() - 1 {
                assert(es0[i] == es[i]);
            }
        }
        if distinct_keys(es) {
            assert(distinct_keys(es0));
            assert forall|i: int| 0 <= i < es.len() implies entries_map(es)[#[trigger] es[i].0 as int]
                == es[i].1@ by {
                if i < es.len() - 1 {
                    assert(es0[i] == es[i]);
                    assert(es[i].0 != es.last().0);
                }
            }
        }
    }
}

impl View for FilenameCache {
    type V = Map<int, Seq<char>>;

    closed spec fn view(&self) -> Map<int, Seq<char>> {
        entries_map(self.entries@)
    }
}

impl FilenameCache {
    /// Every stored flow identifier names exactly one entry.
    pub closed spec fn wf(&self) -> bool {
        distinct_keys(self.entries@)
    }

    /// An empty cache.
    pub fn new() -> (r: FilenameCache)
        ensures
            r.wf(),
            r@ =~= Map::<int, Seq<char>>::empty(),
    {
        FilenameCache { entries: Vec::new() }
    }

    /// Remember `name` for `flow_id`, overwriting any earlier value.
    #[verifier::loop_isolation(false)]
    pub fn set(&mut self, flow_id: i64, name: String)
        requires
            old(self).wf(),
        ensures
            final(self).wf(),
            final(self)@ == old(self)@.insert(flow_id as int, name@),
    {
        let ghost es = old(self).entries@;
        let mut i: usize = 0;
        while i < self.entries.len()
            invariant
                i <= self.entries.len(),
                self.entries@ == es,
                distinct_keys(es),
                forall|j: int| 0 <= j < i ==> es[j].0 != flow_id,
            decreases self.entries.len() - i,
        {
            if self.entries[i].0 == flow_id {
                self.entries.remove(i);
                self.entries.push((flow_id, name));
                proof {
                    let er = es.remove(i as int);
                    assert forall|p: int, q: int| 0 <= p < q < er.len() implies er[p].0
                        != er[q].0 by {
                        assert(er[p] == if p < i { es[p] } else { es[p + 1] });
                        assert(er[q] == if q < i { es[q] } else { es[q + 1] });
                    }
                    assert(self.entries@ == er.push((flow_id, name)));
                    assert(self.entries@.drop_last() == er);
                    lemma_entries_map_props(es);
                    lemma_entries_map_props(er);
                    assert forall|p: int| 0 <= p < er.len() implies #[trigger] er[p].0
                        != flow_id by {
                        assert(er[p] == if p < i { es[p] } else { es[p + 1] });
                    }
                    assert(self.wf());
                    assert forall|k: int|
                        entries_map(er).insert(flow_id as int, name@).contains_key(k)
                            <==> entries_map(es).insert(flow_id as int, name@).contains_key(
                            k,
                        ) by {
                        if k != flow_id as int {
                            if entries_map(er).contains_key(k) {
                                let p = choose|p: int| 0 <= p < er.len() && er[p].0 == k;
                                let p2: int = if p < i { p } else { p + 1 };
                                assert(es[p2].0 == k);
                            }
                            if entries_map(es).contains_key(k) {
                                let p = choose|p: int| 0 <= p < es.len() && es[p].0 == k;
                                assert(p != i);
                                let p2: int = if p < i { p } else { p - 1 };
                                assert(er[p2] == es[p]);
                            }
                        }
                    }
                    assert forall|k: int|
                        entries_map(es).insert(flow_id as int, name@).contains_key(k) implies
                        entries_map(er).insert(flow_id as int, name@)[k] == entries_map(
                            es,
                        ).insert(flow_id as int, name@)[k] by {
                        if k != flow_id as int {
                            let p = choose|p: int| 0 <= p < es.len() && es[p].0 == k;
                            assert(p != i);
                            let p2: int = if p < i { p } else { p - 1 };
                            assert(er[p2] == es[p]);
                            assert(entries_map(er)[k] == er[p2].1@);
                            assert(entries_map(es)[k] == es[p].1@);
                        }
                    }
                    assert(self.entries@.len() > 0);
                    assert(self.entries@.last() == (flow_id, name));
                    assert(self@ == entries_map(er).insert(flow_id as int, name@));
                    assert(self@ =~= entries_map(es).insert(flow_id as int, name@));
                }
                return ;
            }
            i += 1;
        }
        self.entries.push((flow_id, name));
        proof {
            assert(self.entries@.drop_last() == es);
            assert forall|p: int, q: int| 0 <= p < q < self.entries@.len() implies self.entries@[p].0
                != self.entries@[q].0 by {
                if q == self.entries@.len() - 1 {
                    assert(self.entries@[p] == es[p]);
                }
            }
        }
    }

    /// The filename remembered for `flow_id`, if one was observed.
    pub fn get(&self, flow_id: i64) -> (r: Option<&String>)
        requires
            self.wf(),
        ensures
            match r {
                Some(s) => self@.contains_key(flow_id as int) && s@ == self@[flow_id as int],
                None => !self@.contains_key(flow_id as int),
            },
    {
        let mut i: usize = 0;
        while i < self.entries.len()
            invariant
                i <= self.entries.len(),
                self.wf(),
                forall|j: int| 0 <= j < i ==> self.entries@[j].0 != flow_id,
            decreases self.entries.len() - i,
        {
            if self.entries[i].0 == flow_id {
                proof {
                    lemma_entries_map_props(self.entries@);
                }
                return Some(&self.entries[i].1);
            }
            i += 1;
        }
        proof {
            lemma_entries_map_props(self.entries@);
        }
        None
    }
}

} // verus!
