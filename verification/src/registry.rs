//! The saved-position registry: a name-keyed store of saved positions kept
//! in lockstep with the spatial index, so that nearest-neighbour queries and
//! name lookups always see the same positions.

use crate::earth::Coord;
use crate::index::{
    qdist2, rt_insert, rt_iter, rt_nearest, rt_new, rt_remove, rtree_entries, rtree_point,
    seq_entries, spec_tree_point, tree_in_range, PosTree,
};
use crate::pos::SavedPos;
use vstd::multiset::Multiset;
use vstd::prelude::*;

verus! {

/// Why a registry operation was refused.
#[derive(Clone, Copy, PartialEq, Eq, Structural, Debug)]
pub enum RegistryError {
    /// A position with this name is already saved.
    DuplicateName,
    /// No position with this name is saved.
    NameNotFound,
}

/// The index entry a saved position is stored under.
pub open spec fn entry_of(p: SavedPos) -> ((int, int, int), Seq<char>) {
    (spec_tree_point(p.pos.coords), p.name@)
}

/// The index entries of a sequence of saved positions.
pub open spec fn items_entries(s: Seq<SavedPos>) -> Multiset<((int, int, int), Seq<char>)> {
    s.map_values(|p: SavedPos| entry_of(p)).to_multiset()
}

/// No two positions share a name.
pub open spec fn names_unique(s: Seq<SavedPos>) -> bool {
    forall|i: int, j: int| 0 <= i < j < s.len() ==> s[i].name@ != s[j].name@
}

/// `p` is one of the positions in `s`.
pub open spec fn is_saved(s: Seq<SavedPos>, p: SavedPos) -> bool {
    exists|i: int| 0 <= i < s.len() && s[i] == p
}

/// Some position in `s` carries the name `n`.
pub open spec fn has_name(s: Seq<SavedPos>, n: Seq<char>) -> bool {
    exists|i: int| 0 <= i < s.len() && s[i].name@ == n
}

/// A name-keyed store of saved positions, kept consistent with a spatial
/// index over their projected points. Saving and deleting touch both
/// structures together, so neither can drift from the other.
pub struct Registry {
    tree: PosTree,
    items: Vec<SavedPos>,
}

impl View for Registry {
    type V = Seq<SavedPos>;

    closed spec fn view(&self) -> Seq<SavedPos> {
        self.items@
    }
}

impl Registry {
    /// Names are unique, and the index holds exactly the items' entries.
    pub closed spec fn wf(&self) -> bool {
        &&& names_unique(self.items@)
        &&& rtree_entries(self.tree) == items_entries(self.items@)
        &&& tree_in_range(self.tree)
    }

    /// An empty registry.
    pub fn new() -> (r: Registry)
        ensures
            r@ == Seq::<SavedPos>::empty(),
            r.wf(),
    {
        let r = Registry { tree: rt_new(), items: Vec::new() };
        proof {
            broadcast use vstd::seq_lib::group_to_multiset_ensures;

            assert(r.items@.map_values(|p: SavedPos| entry_of(p)) =~= Seq::<
                ((int, int, int), Seq<char>),
            >::empty());
            assert(rtree_entries(r.tree) =~= items_entries(r.items@)) by {
                assert forall|e: ((int, int, int), Seq<char>)|
                    items_entries(r.items@).count(e) == 0 by {
                    assert(!r.items@.map_values(|p: SavedPos| entry_of(p)).contains(e));
                }
            }
        }
        r
    }

    /// How many positions are saved.
    pub fn len(&self) -> (r: usize)
        ensures
            r == self@.len(),
    {
        self.items.len()
    }

    /// The position saved under the given index, for read-only walks.
    pub fn get(&self, i: usize) -> (r: &SavedPos)
        requires
            i < self@.len(),
        ensures
            *r == self@[i as int],
    {
        &self.items[i]
    }

    /// Where the given name is saved, if anywhere.
    fn find_by_name(&self, name: &String) -> (r: Option<usize>)
        ensures
            match r {
                Some(i) => i < self@.len() && self@[i as int].name@ == name@,
                None => !has_name(self@, name@),
            },
    {
        let mut k: usize = 0;
        while k < self.items.len()
            invariant
                0 <= k <= self@.len(),
                forall|j: int| 0 <= j < k ==> self@[j].name@ != name@,
            decreases self@.len() - k,
        {
            if self.items[k].name == *name {
                return Some(k);
            }
            k = k + 1;
        }
        None
    }

    /// Whether a position with this name is saved.
    pub fn contains_name(&self, name: &String) -> (r: bool)
        ensures
            r == has_name(self@, name@),
    {
        self.find_by_name(name).is_some()
    }

    /// Save a position. Fails, changing nothing, when its name is already
    /// used; otherwise the position joins both the name store and the
    /// spatial index.
    pub fn save(&mut self, pos: SavedPos) -> (r: Result<(), RegistryError>)
        requires
            old(self).wf(),
        ensures
            final(self).wf(),
            if has_name(old(self)@, pos.name@) {
                r == Err::<(), RegistryError>(RegistryError::DuplicateName)
                    && final(self)@ == old(self)@
            } else {
                r == Ok::<(), RegistryError>(()) && final(self)@ == old(self)@.push(pos)
            },
    {
        if self.contains_name(&pos.name) {
            return Err(RegistryError::DuplicateName);
        }
        let ghost s = self.items@;
        let p = rtree_point(&pos);
        rt_insert(&mut self.tree, p, pos.name.clone());
        self.items.push(pos);
        proof {
            broadcast use vstd::seq_lib::group_to_multiset_ensures;

            let f = |q: SavedPos| entry_of(q);
            assert(self.items@.map_values(f) =~= s.map_values(f).push(entry_of(pos)));
        }
        Ok(())
    }

    /// Delete the position saved under the given name. Fails, changing
    /// nothing, when no position has the name; otherwise the position leaves
    /// both the name store and the spatial index, and is returned.
    pub fn delete(&mut self, name: &String) -> (r: Result<SavedPos, RegistryError>)
        requires
            old(self).wf(),
        ensures
            final(self).wf(),
            match r {
                Ok(p) => exists|i: int|
                    0 <= i < old(self)@.len() && old(self)@[i].name@ == name@ && p == old(self)@[i]
                        && final(self)@ == old(self)@.remove(i),
                Err(e) => e == RegistryError::NameNotFound && !has_name(old(self)@, name@)
                    && final(self)@ == old(self)@,
            },
    {
        let found = self.find_by_name(name);
        match found {
            None => Err(RegistryError::NameNotFound),
            Some(i) => {
                let ghost s = self.items@;
                let p = self.items.remove(i);
                proof {
                    broadcast use vstd::seq_lib::group_to_multiset_ensures;

                    let f = |q: SavedPos| entry_of(q);
                    assert(self.items@.map_values(f) =~= s.map_values(f).remove(i as int));
                    assert(s.map_values(f)[i as int] == entry_of(p));
                    assert(items_entries(s).count(entry_of(p)) >= 1) by {
                        assert(s.map_values(f).contains(entry_of(p)));
                    }
                }
                let tp = rtree_point(&p);
                let removed = rt_remove(&mut self.tree, tp, name);
                proof {
                    assert(removed);
                }
                Ok(p)
            },
        }
    }

    /// Up to `n` saved positions. With a reference coordinate, the nearest
    /// ones first: ordered by increasing straight-line distance between
    /// quantised projected points, which orders them by increasing
    /// great-circle distance up to the index's resolution. Without one, an
    /// arbitrary but deterministic selection. The returned positions are
    /// saved positions with pairwise distinct names.
    pub fn nearest(&self, curr: Option<Coord>, n: usize) -> (r: Vec<SavedPos>)
        requires
            self.wf(),
        ensures
            r@.len() == vstd::math::min(n as int, self@.len() as int),
            forall|k: int| 0 <= k < r@.len() ==> is_saved(self@, #[trigger] r@[k]),
            forall|k1: int, k2: int| 0 <= k1 < k2 < r@.len() ==> r@[k1].name@ != r@[k2].name@,
            (match curr {
                Some(c) => forall|k1: int, k2: int|
                    0 <= k1 <= k2 < r@.len() ==> qdist2(
                        spec_tree_point(r@[k1].pos.coords),
                        spec_tree_point(c),
                    ) <= qdist2(spec_tree_point(r@[k2].pos.coords), spec_tree_point(c)),
                None => true,
            }),
            (match curr {
                Some(c) => forall|i: int|
                    0 <= i < self@.len() && r@.len() > 0 && (forall|k: int|
                        0 <= k < r@.len() ==> r@[k] != self@[i]) ==> qdist2(
                        spec_tree_point((#[trigger] self@[i]).pos.coords),
                        spec_tree_point(c),
                    ) >= qdist2(
                        spec_tree_point(r@[r@.len() - 1].pos.coords),
                        spec_tree_point(c),
                    ),
                None => true,
            }),
    {
        let list = match curr {
            Some(c) => {
                let q = rtree_point(&c);
                rt_nearest(&self.tree, q)
            },
            None => rt_iter(&self.tree),
        };
        proof {
            self.lemma_entries_distinct(list@);
        }
        let mut out: Vec<SavedPos> = Vec::new();
        let mut k: usize = 0;
        proof {
            broadcast use vstd::seq_lib::group_to_multiset_ensures;

            assert(seq_entries(list@).len() == items_entries(self@).len());
            assert(self@.map_values(|p: SavedPos| entry_of(p)).len() == self@.len());
        }
        while k < list.len() && out.len() < n
            invariant
                0 <= k <= list@.len(),
                out@.len() == vstd::math::min(k as int, n as int),
                list@.len() == self@.len(),
                self.wf(),
                seq_entries(list@).to_multiset() == items_entries(self@),
                forall|k1: int, k2: int|
                    0 <= k1 < k2 < list@.len() ==> seq_entries(list@)[k1].1 != seq_entries(
                        list@,
                    )[k2].1,
                forall|j: int| 0 <= j < out@.len() ==> out@[j].name@ == seq_entries(list@)[j].1,
                forall|j: int| 0 <= j < out@.len() ==> is_saved(self@, #[trigger] out@[j]),
            decreases list@.len() - k,
        {
            proof {
                broadcast use vstd::seq_lib::group_to_multiset_ensures;

                assert(seq_entries(list@).contains(seq_entries(list@)[k as int]));
                assert(items_entries(self@).count(seq_entries(list@)[k as int]) >= 1);
                assert(self@.map_values(|p: SavedPos| entry_of(p)).contains(
                    seq_entries(list@)[k as int],
                ));
            }
            let found = self.find_by_name(&list[k].1);
            match found {
                Some(i) => {
                    let p = self.items[i].duplicate();
                    proof {
                        assert(is_saved(self@, p)) by {
                            assert(self@[i as int] == p);
                        }
                    }
                    out.push(p);
                },
                None => {
                    proof {
                        let e = seq_entries(list@)[k as int];
                        let m = self@.map_values(|p: SavedPos| entry_of(p));
                        let i = choose|i: int| 0 <= i < m.len() && m[i] == e;
                        assert(self@[i].name@ == e.1);
                    }
                    vstd::pervasive::unreached::<()>();
                },
            }
            k = k + 1;
        }
        proof {
            assert forall|k1: int, k2: int| 0 <= k1 < k2 < out@.len() implies out@[k1].name@
                != out@[k2].name@ by {
                assert(out@[k1].name@ == seq_entries(list@)[k1].1);
                assert(out@[k2].name@ == seq_entries(list@)[k2].1);
            }
            match curr {
                Some(c) => {
                    self.lemma_nearest_sorted(list@, out@, c);
                    self.lemma_nearest_complete(list@, out@, c);
                },
                None => (),
            }
        }
        out
    }

    /// With unique names, the index entries of both the registry and any
    /// vector holding the same entries are pairwise distinct in name.
    proof fn lemma_entries_distinct(&self, list: Seq<((i64, i64, i64), String)>)
        requires
            self.wf(),
            seq_entries(list).to_multiset() == items_entries(self@),
        ensures
            list.len() == self@.len(),
            forall|k1: int, k2: int|
                0 <= k1 < k2 < list.len() ==> seq_entries(list)[k1].1 != seq_entries(list)[k2].1,
    {
        broadcast use vstd::seq_lib::group_to_multiset_ensures;

        let f = |p: SavedPos| entry_of(p);
        let m = self@.map_values(f);
        assert(m.no_duplicates()) by {
            assert forall|i: int, j: int|
                0 <= i < m.len() && 0 <= j < m.len() && i != j implies m[i] != m[j] by {
                assert(self@[i].name@ != self@[j].name@);
            }
        }
        m.lemma_multiset_has_no_duplicates();
        let le = seq_entries(list);
        assert(le.len() == le.to_multiset().len());
        assert(m.len() == m.to_multiset().len());
        assert(le.len() == m.len());
        le.lemma_multiset_has_no_duplicates_conv();
        assert forall|k1: int, k2: int|
            0 <= k1 < k2 < list.len() implies seq_entries(list)[k1].1 != seq_entries(
            list,
        )[k2].1 by {
            if le[k1].1 == le[k2].1 {
                assert(le[k1] != le[k2]);
                assert(le.contains(le[k1]) && le.contains(le[k2]));
                assert(m.to_multiset().count(le[k1]) >= 1);
                assert(m.to_multiset().count(le[k2]) >= 1);
                let i1 = choose|i: int| 0 <= i < m.len() && m[i] == le[k1];
                let i2 = choose|i: int| 0 <= i < m.len() && m[i] == le[k2];
                assert(self@[i1].name@ == le[k1].1);
                assert(self@[i2].name@ == le[k2].1);
                assert(i1 != i2);
                assert(self@[i1].name@ != self@[i2].name@);
            }
        }
    }

    /// The prefix of positions picked from a distance-sorted entry list is
    /// itself distance-sorted.
    proof fn lemma_nearest_sorted(
        &self,
        list: Seq<((i64, i64, i64), String)>,
        out: Seq<SavedPos>,
        c: Coord,
    )
        requires
            self.wf(),
            seq_entries(list).to_multiset() == items_entries(self@),
            out.len() <= list.len(),
            forall|k1: int, k2: int|
                0 <= k1 <= k2 < list.len() ==> qdist2(
                    seq_entries(list)[k1].0,
                    spec_tree_point(c),
                ) <= qdist2(seq_entries(list)[k2].0, spec_tree_point(c)),
            forall|j: int| 0 <= j < out.len() ==> out[j].name@ == seq_entries(list)[j].1,
            forall|j: int| 0 <= j < out.len() ==> is_saved(self@, #[trigger] out[j]),
        ensures
            forall|k1: int, k2: int|
                0 <= k1 <= k2 < out.len() ==> qdist2(
                    spec_tree_point(out[k1].pos.coords),
                    spec_tree_point(c),
                ) <= qdist2(spec_tree_point(out[k2].pos.coords), spec_tree_point(c)),
            forall|j: int|
                0 <= j < out.len() ==> spec_tree_point((#[trigger] out[j]).pos.coords)
                    == seq_entries(list)[j].0,
    {
        broadcast use vstd::seq_lib::group_to_multiset_ensures;

        let f = |p: SavedPos| entry_of(p);
        let m = self@.map_values(f);
        let le = seq_entries(list);
        assert forall|j: int| 0 <= j < out.len() implies spec_tree_point(out[j].pos.coords)
            == le[j].0 by {
            // The entry at position j names out[j]; by the multiset equality
            // and unique names it is out[j]'s own entry.
            let i = choose|i: int| 0 <= i < self@.len() && self@[i] == out[j];
            assert(le.contains(le[j]));
            assert(m.to_multiset().count(le[j]) >= 1);
            let i2 = choose|i2: int| 0 <= i2 < m.len() && m[i2] == le[j];
            assert(self@[i2].name@ == le[j].1);
            assert(self@[i2].name@ == out[j].name@);
            assert(self@[i].name@ == out[j].name@);
            if i != i2 {
                assert(self@[i].name@ != self@[i2].name@);
            }
            assert(self@[i2] == out[j]);
            assert(m[i2] == entry_of(out[j]));
        }
        assert forall|k1: int, k2: int| 0 <= k1 <= k2 < out.len() implies qdist2(
            spec_tree_point(out[k1].pos.coords),
            spec_tree_point(c),
        ) <= qdist2(spec_tree_point(out[k2].pos.coords), spec_tree_point(c)) by {
            assert(spec_tree_point(out[k1].pos.coords) == le[k1].0);
            assert(spec_tree_point(out[k2].pos.coords) == le[k2].0);
            assert(qdist2(le[k1].0, spec_tree_point(c)) <= qdist2(le[k2].0, spec_tree_point(c)));
        }
    }

    /// No saved position outside the returned prefix is nearer than the last
    /// returned one.
    proof fn lemma_nearest_complete(
        &self,
        list: Seq<((i64, i64, i64), String)>,
        out: Seq<SavedPos>,
        c: Coord,
    )
        requires
            self.wf(),
            seq_entries(list).to_multiset() == items_entries(self@),
            out.len() <= list.len(),
            forall|k1: int, k2: int|
                0 <= k1 <= k2 < list.len() ==> qdist2(
                    seq_entries(list)[k1].0,
                    spec_tree_point(c),
                ) <= qdist2(seq_entries(list)[k2].0, spec_tree_point(c)),
            forall|j: int| 0 <= j < out.len() ==> out[j].name@ == seq_entries(list)[j].1,
            forall|j: int| 0 <= j < out.len() ==> is_saved(self@, #[trigger] out[j]),
        ensures
            forall|i: int|
                0 <= i < self@.len() && out.len() > 0 && (forall|k: int|
                    0 <= k < out.len() ==> out[k] != self@[i]) ==> qdist2(
                    spec_tree_point((#[trigger] self@[i]).pos.coords),
                    spec_tree_point(c),
                ) >= qdist2(spec_tree_point(out[out.len() - 1].pos.coords), spec_tree_point(c)),
    {
        broadcast use vstd::seq_lib::group_to_multiset_ensures;

        let f = |p: SavedPos| entry_of(p);
        let m = self@.map_values(f);
        let le = seq_entries(list);
        assert(le.len() == le.to_multiset().len());
        assert(m.len() == m.to_multiset().len());
        self.lemma_nearest_sorted(list, out, c);
        assert forall|i: int|
            0 <= i < self@.len() && out.len() > 0 && (forall|k: int|
                0 <= k < out.len() ==> out[k] != self@[i]) implies qdist2(
            spec_tree_point((#[trigger] self@[i]).pos.coords),
            spec_tree_point(c),
        ) >= qdist2(spec_tree_point(out[out.len() - 1].pos.coords), spec_tree_point(c)) by {
            // The omitted item's entry sits somewhere in the list.
            assert(m.contains(m[i]));
            assert(le.to_multiset().count(m[i]) >= 1);
            let je = choose|je: int| 0 <= je < le.len() && le[je] == m[i];
            if je < out.len() {
                // The returned position at that place carries the same name,
                // and names are unique, so it would be this very item.
                assert(out[je].name@ == le[je].1);
                assert(le[je].1 == self@[i].name@);
                let i2 = choose|i2: int| 0 <= i2 < self@.len() && self@[i2] == out[je];
                if i2 != i {
                    assert(self@[i2].name@ != self@[i].name@);
                }
                assert(out[je] == self@[i]);
            } else {
                assert(qdist2(le[out.len() - 1].0, spec_tree_point(c)) <= qdist2(
                    le[je].0,
                    spec_tree_point(c),
                ));
                assert(le[je].0 == spec_tree_point(self@[i].pos.coords));
                assert(spec_tree_point(out[out.len() - 1].pos.coords) == le[out.len() - 1].0);
            }
        }
    }
}

} // verus!
