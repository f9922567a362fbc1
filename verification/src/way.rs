//! Ways: ordered sequences of positions forming a path.
//!
//! A way keeps two aggregates incrementally in sync with its nodes: the total
//! path length (the sum of the great-circle distances between consecutive
//! nodes) and, once it has been asked for, a sorted sequence of the nodes'
//! reported accuracies, from which the median accuracy is read.

use crate::earth::{geodesic_mm, geo_dist_of, MAX_GEODESIC_MM};
use crate::pos::{Coords, Position, PosWithTimestamp, RecordedPos};
use vstd::multiset::Multiset;
use vstd::prelude::*;

verus! {

/// The great-circle distance in millimetres between two nodes' coordinates.
pub open spec fn dist_between<T: Coords>(a: T, b: T) -> int {
    geo_dist_of(
        a.spec_coords().lat_e7 as int,
        a.spec_coords().lon_e7 as int,
        b.spec_coords().lat_e7 as int,
        b.spec_coords().lon_e7 as int,
    )
}

/// The sum of the great-circle distances between consecutive nodes.
pub open spec fn dists_sum<T: Coords>(s: Seq<T>) -> int
    decreases s.len(),
{
    if s.len() <= 1 {
        0
    } else {
        dists_sum(s.drop_last()) + dist_between(s[s.len() - 2], s[s.len() - 1])
    }
}

/// The multiset of the accuracies that the nodes report.
pub open spec fn accs_ms<T: Coords>(s: Seq<T>) -> Multiset<u64>
    decreases s.len(),
{
    if s.len() == 0 {
        Multiset::empty()
    } else {
        match s.last().spec_accuracy() {
            Some(a) => accs_ms(s.drop_last()).insert(a),
            None => accs_ms(s.drop_last()),
        }
    }
}

/// The sequence is in non-decreasing order.
pub open spec fn sorted(s: Seq<u64>) -> bool {
    forall|i: int, j: int| 0 <= i <= j < s.len() ==> s[i] <= s[j]
}

/// Taking one more node adds one more distance to the sum.
pub proof fn lemma_dists_sum_take_step<T: Coords>(s: Seq<T>, k: int)
    requires
        1 <= k < s.len(),
    ensures
        dists_sum(s.take(k + 1)) == dists_sum(s.take(k)) + dist_between(s[k - 1], s[k]),
{
    assert(s.take(k + 1).drop_last() =~= s.take(k));
    assert(s.take(k + 1).len() == k + 1);
}

/// The sum over a full sequence is the sum over its full prefix.
pub proof fn lemma_dists_sum_take_all<T: Coords>(s: Seq<T>)
    ensures
        dists_sum(s.take(s.len() as int)) == dists_sum(s),
{
    assert(s.take(s.len() as int) =~= s);
}

/// Appending a node adds the distance from the previously last node.
pub proof fn lemma_dists_sum_push<T: Coords>(s: Seq<T>, p: T)
    requires
        s.len() >= 1,
    ensures
        dists_sum(s.push(p)) == dists_sum(s) + dist_between(s[s.len() - 1], p),
{
    assert(s.push(p).drop_last() =~= s);
}

/// Pushing a node inserts its accuracy, if any, into the multiset.
pub proof fn lemma_accs_ms_push<T: Coords>(s: Seq<T>, p: T)
    ensures
        accs_ms(s.push(p)) == match p.spec_accuracy() {
            Some(a) => accs_ms(s).insert(a),
            None => accs_ms(s),
        },
{
    assert(s.push(p).drop_last() =~= s);
    assert(s.push(p).last() == p);
}

/// Inserting a node anywhere inserts its accuracy, if any, into the multiset.
pub proof fn lemma_accs_ms_insert<T: Coords>(s: Seq<T>, i: int, p: T)
    requires
        0 <= i <= s.len(),
    ensures
        accs_ms(s.insert(i, p)) == match p.spec_accuracy() {
            Some(a) => accs_ms(s).insert(a),
            None => accs_ms(s),
        },
    decreases s.len(),
{
    if i == s.len() {
        assert(s.insert(i, p) =~= s.push(p));
        lemma_accs_ms_push(s, p);
    } else {
        let t = s.insert(i, p);
        assert(t.last() == s.last());
        assert(t.drop_last() =~= s.drop_last().insert(i, p));
        lemma_accs_ms_insert(s.drop_last(), i, p);
    }
}

/// An accuracy reported by some node is in the multiset.
pub proof fn lemma_accs_ms_contains<T: Coords>(s: Seq<T>, i: int)
    requires
        0 <= i < s.len(),
        s[i].spec_accuracy().is_some(),
    ensures
        accs_ms(s).count(s[i].spec_accuracy().unwrap()) >= 1,
    decreases s.len(),
{
    if i == s.len() - 1 {
    } else {
        lemma_accs_ms_contains(s.drop_last(), i);
    }
}

/// Replacing a node removes its old accuracy from the multiset and inserts
/// the new one, where present.
pub proof fn lemma_accs_ms_update<T: Coords>(s: Seq<T>, i: int, p: T)
    requires
        0 <= i < s.len(),
    ensures
        accs_ms(s.update(i, p)) == match (s[i].spec_accuracy(), p.spec_accuracy()) {
            (Some(o), Some(n)) => accs_ms(s).remove(o).insert(n),
            (Some(o), None) => accs_ms(s).remove(o),
            (None, Some(n)) => accs_ms(s).insert(n),
            (None, None) => accs_ms(s),
        },
    decreases s.len(),
{
    let t = s.update(i, p);
    if i == s.len() - 1 {
        assert(t.drop_last() =~= s.drop_last());
        assert(t.last() == p);
        let m = accs_ms(s.drop_last());
        match (s[i].spec_accuracy(), p.spec_accuracy()) {
            (Some(o), Some(n)) => {
                assert(m.insert(o).remove(o) =~= m);
            },
            (Some(o), None) => {
                assert(m.insert(o).remove(o) =~= m);
            },
            _ => {},
        }
    } else {
        assert(t.drop_last() =~= s.drop_last().update(i, p));
        assert(t.last() == s.last());
        lemma_accs_ms_update(s.drop_last(), i, p);
        if i < s.len() - 1 {
            assert(s.drop_last()[i] == s[i]);
        }
        let m = accs_ms(s.drop_last());
        match (s[i].spec_accuracy(), p.spec_accuracy(), s.last().spec_accuracy()) {
            (Some(o), Some(n), Some(l)) => {
                lemma_accs_ms_contains(s.drop_last(), i);
                assert(m.remove(o).insert(n).insert(l) =~= m.insert(l).remove(o).insert(n));
            },
            (Some(o), None, Some(l)) => {
                lemma_accs_ms_contains(s.drop_last(), i);
                assert(m.remove(o).insert(l) =~= m.insert(l).remove(o));
            },
            (None, Some(n), Some(l)) => {
                assert(m.insert(n).insert(l) =~= m.insert(l).insert(n));
            },
            _ => {},
        }
    }
}

/// A list of positions, preferably forming a natural path on the map.
pub struct Way<T> {
    /// An ordered list of positions.
    nodes: Vec<T>,
    /// The length of the way in millimetres.
    length_mm: u128,
    /// Whether `accuracies` has been materialised yet.
    accs_init: bool,
    /// Once materialised: all accuracies reported by the nodes, in
    /// non-decreasing order, kept in sync with the nodes by every mutation.
    accuracies: Vec<u64>,
}

impl<T> View for Way<T> {
    type V = Seq<T>;

    closed spec fn view(&self) -> Seq<T> {
        self.nodes@
    }
}

impl<T: Coords> Way<T> {
    /// The length field agrees with the nodes, and the accuracy cache, once
    /// initialised, holds exactly the nodes' reported accuracies in order.
    pub closed spec fn wf(&self) -> bool {
        &&& self.length_mm as int == dists_sum(self.nodes@)
        &&& self.length_mm as int <= self.nodes@.len() * (MAX_GEODESIC_MM as int)
        &&& (self.accs_init ==> sorted(self.accuracies@) && self.accuracies@.to_multiset()
            == accs_ms(self.nodes@))
    }

    /// Whether the accuracy cache has been materialised.
    pub closed spec fn has_cache(&self) -> bool {
        self.accs_init
    }

    /// The cached length in millimetres, as seen by contracts.
    pub closed spec fn spec_length(&self) -> int {
        self.length_mm as int
    }

    /// The cached sorted accuracies, as seen by contracts.
    pub closed spec fn spec_accuracies(&self) -> Seq<u64> {
        self.accuracies@
    }

    /// An empty way.
    pub fn new() -> (r: Way<T>)
        ensures
            r@ == Seq::<T>::empty(),
            r.wf(),
            !r.has_cache(),
    {
        let r = Way { nodes: Vec::new(), length_mm: 0, accs_init: false, accuracies: Vec::new() };
        proof {
            assert(r.nodes@ =~= Seq::<T>::empty());
        }
        r
    }

    /// The ordered list of nodes.
    pub fn nodes(&self) -> (r: &Vec<T>)
        ensures
            r@ == self@,
    {
        &self.nodes
    }

    /// The length of the way in millimetres: the sum of the great-circle
    /// distances between consecutive nodes.
    pub fn length(&self) -> (r: u128)
        requires
            self.wf(),
        ensures
            r as int == dists_sum(self@),
    {
        self.length_mm
    }

    /// Add a node to the end of the way.
    pub fn append(&mut self, pos: T)
        requires
            old(self).wf(),
        ensures
            final(self).wf(),
            final(self)@ == old(self)@.push(pos),
            final(self).has_cache() == old(self).has_cache(),
    {
        let n = self.nodes.len();
        // Adjust the length.
        if n > 0 {
            let d = geodesic_mm(self.nodes[n - 1].coords(), pos.coords());
            proof {
                lemma_dists_sum_push(self.nodes@, pos);
                vstd::arithmetic::mul::lemma_mul_inequality(
                    self.nodes@.len() as int,
                    usize::MAX as int,
                    MAX_GEODESIC_MM as int,
                );
            }
            self.length_mm = self.length_mm + (d as u128);
        }

        // Adjust the accuracy cache if it is initialised and the node
        // reports an accuracy.
        if self.accs_init {
            if let Some(a) = pos.accuracy() {
                insert_sorted(&mut self.accuracies, a);
            }
        }

        proof {
            lemma_accs_ms_push(self.nodes@, pos);
        }
        self.nodes.push(pos);
    }
}

/// Insert a value into a sorted vector, keeping it sorted.
fn insert_sorted(c: &mut Vec<u64>, a: u64)
    requires
        sorted(old(c)@),
    ensures
        sorted(final(c)@),
        final(c)@.to_multiset() == old(c)@.to_multiset().insert(a),
        final(c)@.len() == old(c)@.len() + 1,
{
    let i = lower_bound(c, a);
    c.insert(i, a);
    proof {
        let s = old(c)@;
        broadcast use vstd::seq_lib::group_to_multiset_ensures;

        lemma_insert_to_multiset(s, i as int, a);
        assert forall|p: int, q: int| 0 <= p <= q < c@.len() implies c@[p] <= c@[q] by {
            s.insert_ensures(i as int, a);
        }
    }
}

/// Where a sorted sequence's values first reach `a`.
fn lower_bound(c: &Vec<u64>, a: u64) -> (r: usize)
    requires
        sorted(c@),
    ensures
        0 <= r <= c@.len(),
        forall|k: int| 0 <= k < r ==> c@[k] < a,
        forall|k: int| r <= k < c@.len() ==> a <= c@[k],
{
    let mut lo: usize = 0;
    let mut hi: usize = c.len();
    while lo < hi
        invariant
            0 <= lo <= hi <= c@.len(),
            sorted(c@),
            forall|k: int| 0 <= k < lo ==> c@[k] < a,
            forall|k: int| hi <= k < c@.len() ==> a <= c@[k],
        decreases hi - lo,
    {
        let mid = lo + (hi - lo) / 2;
        if c[mid] < a {
            lo = mid + 1;
        } else {
            hi = mid;
        }
    }
    lo
}

/// Inserting into a sequence inserts into its multiset.
pub proof fn lemma_insert_to_multiset(s: Seq<u64>, i: int, a: u64)
    requires
        0 <= i <= s.len(),
    ensures
        s.insert(i, a).to_multiset() == s.to_multiset().insert(a),
{
    broadcast use vstd::seq_lib::group_to_multiset_ensures;

    let t = s.insert(i, a);
    if i == s.len() {
        assert(t =~= s.push(a));
    } else {
        assert(t.remove(i) =~= s);
        assert(t[i] == a);
        assert(t.remove(i).to_multiset() =~= t.to_multiset().remove(a));
        assert(t.to_multiset().contains(a)) by {
            assert(t.contains(a));
        }
        assert(t.to_multiset().remove(a).insert(a) =~= t.to_multiset());
    }
}

/// Removing from a sequence removes from its multiset.
pub proof fn lemma_remove_to_multiset(s: Seq<u64>, i: int)
    requires
        0 <= i < s.len(),
    ensures
        s.remove(i).to_multiset() == s.to_multiset().remove(s[i]),
{
    broadcast use vstd::seq_lib::group_to_multiset_ensures;

}

impl<T: Coords> Way<T> {
    /// Recompute the cached length from scratch, summing all consecutive
    /// pairs.
    fn recompute_length(&mut self)
        ensures
            final(self).nodes == old(self).nodes,
            final(self).accs_init == old(self).accs_init,
            final(self).accuracies == old(self).accuracies,
            final(self).length_mm as int == dists_sum(old(self).nodes@),
            final(self).length_mm as int <= old(self).nodes@.len() * (MAX_GEODESIC_MM as int),
    {
        let ghost s = self.nodes@;
        let n = self.nodes.len();
        if n <= 1 {
            self.length_mm = 0;
            proof {
                vstd::arithmetic::mul::lemma_mul_nonnegative(
                    s.len() as int,
                    MAX_GEODESIC_MM as int,
                );
            }
            return ;
        }
        let mut sum: u128 = 0;
        let mut i: usize = 1;
        proof {
            assert(dists_sum(s.take(1)) == 0);
        }
        while i < n
            invariant
                1 <= i <= n,
                n == s.len(),
                self.nodes@ == s,
                sum as int == dists_sum(s.take(i as int)),
                sum as int <= i * (MAX_GEODESIC_MM as int),
            decreases n - i,
        {
            let d = geodesic_mm(self.nodes[i - 1].coords(), self.nodes[i].coords());
            proof {
                lemma_dists_sum_take_step(s, i as int);
                vstd::arithmetic::mul::lemma_mul_inequality(
                    i as int + 1,
                    usize::MAX as int + 1,
                    MAX_GEODESIC_MM as int,
                );
            }
            sum = sum + (d as u128);
            i = i + 1;
        }
        proof {
            lemma_dists_sum_take_all(s);
            vstd::arithmetic::mul::lemma_mul_inequality(
                n as int,
                s.len() as int,
                MAX_GEODESIC_MM as int,
            );
        }
        self.length_mm = sum;
    }

    /// Insert a node at the given index. The length is recomputed in full,
    /// since an interior insertion invalidates more than the tail segment.
    pub fn insert(&mut self, i: usize, pos: T)
        requires
            old(self).wf(),
            i <= old(self)@.len(),
        ensures
            final(self).wf(),
            final(self)@ == old(self)@.insert(i as int, pos),
            final(self).has_cache() == old(self).has_cache(),
    {
        // Adjust the accuracy cache if it is initialised and the node
        // reports an accuracy.
        if self.accs_init {
            if let Some(a) = pos.accuracy() {
                insert_sorted(&mut self.accuracies, a);
            }
        }
        proof {
            lemma_accs_ms_insert(self.nodes@, i as int, pos);
        }
        self.nodes.insert(i, pos);
        self.recompute_length();
    }

    /// Replace the node at the given index. Its old accuracy, if present,
    /// leaves the cache — located by binary search on the accuracy value —
    /// and the new node's accuracy, if present, enters it; then the length
    /// is recomputed in full.
    pub fn update(&mut self, i: usize, new_pos: T)
        requires
            old(self).wf(),
            i < old(self)@.len(),
        ensures
            final(self).wf(),
            final(self)@ == old(self)@.update(i as int, new_pos),
            final(self).has_cache() == old(self).has_cache(),
    {
        if self.accs_init {
            // Remove the accuracy of the node that is about to go.
            if let Some(o) = self.nodes[i].accuracy() {
                proof {
                    lemma_accs_ms_contains(self.nodes@, i as int);
                }
                remove_value(&mut self.accuracies, o);
            }
            // Insert the accuracy of the new node.
            if let Some(a) = new_pos.accuracy() {
                insert_sorted(&mut self.accuracies, a);
            }
        }
        proof {
            lemma_accs_ms_update(self.nodes@, i as int, new_pos);
        }
        let _ = self.nodes.remove(i);
        self.nodes.insert(i, new_pos);
        proof {
            assert(old(self).nodes@.remove(i as int).insert(i as int, new_pos) =~= old(
                self,
            ).nodes@.update(i as int, new_pos));
        }
        self.recompute_length();
    }

    /// Materialise the accuracy cache if it has not been built yet: a full
    /// scan and sort of the current nodes, done once; the mutators keep the
    /// cache in sync afterwards.
    fn ensure_cache(&mut self)
        requires
            old(self).wf(),
        ensures
            final(self).wf(),
            final(self)@ == old(self)@,
            final(self).has_cache(),
    {
        if !self.accs_init {
            let ghost s = self.nodes@;
            let mut c: Vec<u64> = Vec::new();
            let mut i: usize = 0;
            proof {
                broadcast use vstd::seq_lib::group_to_multiset_ensures;

                assert(c@.to_multiset() =~= accs_ms(s.take(0))) by {
                    assert(accs_ms(s.take(0)) == Multiset::<u64>::empty());
                    assert forall|x: u64| c@.to_multiset().count(x) == 0 by {
                        assert(!c@.contains(x));
                    }
                }
            }
            while i < self.nodes.len()
                invariant
                    0 <= i <= s.len(),
                    self.nodes@ == s,
                    sorted(c@),
                    c@.to_multiset() == accs_ms(s.take(i as int)),
                decreases s.len() - i,
            {
                proof {
                    assert(s.take(i as int + 1).drop_last() =~= s.take(i as int));
                    assert(s.take(i as int + 1).last() == s[i as int]);
                }
                if let Some(a) = self.nodes[i].accuracy() {
                    insert_sorted(&mut c, a);
                }
                i = i + 1;
            }
            proof {
                assert(s.take(s.len() as int) =~= s);
            }
            self.accuracies = c;
            self.accs_init = true;
        }
    }

    /// A sorted list of all accuracies reported by nodes in this way,
    /// materialised on first use and kept in sync by the mutators since.
    /// It may contain duplicates, and it may be shorter than the node list
    /// if some nodes report no accuracy.
    pub fn accuracies(&mut self) -> (r: Vec<u64>)
        requires
            old(self).wf(),
        ensures
            final(self).wf(),
            final(self)@ == old(self)@,
            final(self).has_cache(),
            sorted(r@),
            r@.to_multiset() == accs_ms(old(self)@),
    {
        self.ensure_cache();
        copy_vec(&self.accuracies)
    }

    /// The median accuracy: the middle accuracy for an odd count, the mean
    /// of the two middle accuracies for an even count, nothing for an empty
    /// way. The sequence `q` below is the unique sorted arrangement of the
    /// nodes' accuracies (see [`lemma_sorted_accs_unique`]).
    pub fn median_accuracy(&mut self) -> (r: Option<u64>)
        requires
            old(self).wf(),
        ensures
            final(self).wf(),
            final(self)@ == old(self)@,
            final(self).has_cache(),
            exists|q: Seq<u64>|
                sorted(q) && q.to_multiset() == accs_ms(old(self)@) && r == spec_median(q),
    {
        self.ensure_cache();
        let n = self.accuracies.len();
        let ghost q = self.accuracies@;
        if n == 0 {
            proof {
                broadcast use vstd::seq_lib::group_to_multiset_ensures;

                assert(sorted(q) && q.to_multiset() == accs_ms(old(self)@) && spec_median(q)
                    == None::<u64>);
            }
            None
        } else if n % 2 == 1 {
            let m = self.accuracies[n / 2];
            proof {
                assert(sorted(q) && q.to_multiset() == accs_ms(old(self)@) && spec_median(q)
                    == Some(m));
            }
            Some(m)
        } else {
            let a = self.accuracies[n / 2 - 1];
            let b = self.accuracies[n / 2];
            let m = (((a as u128) + (b as u128)) / 2) as u64;
            proof {
                assert(sorted(q) && q.to_multiset() == accs_ms(old(self)@) && spec_median(q)
                    == Some(m));
            }
            Some(m)
        }
    }
}

/// The median of a sorted sequence of accuracies: the middle element for an
/// odd length, the mean of the two middle elements for an even length.
pub open spec fn spec_median(q: Seq<u64>) -> Option<u64> {
    if q.len() == 0 {
        None
    } else if q.len() % 2 == 1 {
        Some(q[q.len() as int / 2])
    } else {
        Some((((q[q.len() as int / 2 - 1] as int) + (q[q.len() as int / 2] as int)) / 2) as u64)
    }
}

/// Any two sorted sequences holding the same accuracies are the same
/// sequence, so the sequence that `accuracies` returns and the sequence
/// `median_accuracy` speaks of are unique.
pub proof fn lemma_sorted_accs_unique(x: Seq<u64>, y: Seq<u64>)
    requires
        sorted(x),
        sorted(y),
        x.to_multiset() == y.to_multiset(),
    ensures
        x == y,
{
    let leq = |a: u64, b: u64| a <= b;
    assert(vstd::relations::sorted_by(x, leq));
    assert(vstd::relations::sorted_by(y, leq));
    vstd::seq_lib::lemma_sorted_unique(x, y, leq);
    assert(x =~= y);
}

/// An equal copy of a vector of accuracies.
fn copy_vec(c: &Vec<u64>) -> (r: Vec<u64>)
    ensures
        r@ == c@,
{
    let mut r: Vec<u64> = Vec::new();
    let mut i: usize = 0;
    while i < c.len()
        invariant
            0 <= i <= c@.len(),
            r@ == c@.take(i as int),
        decreases c@.len() - i,
    {
        r.push(c[i]);
        proof {
            assert(c@.take(i as int).push(c@[i as int]) =~= c@.take(i as int + 1));
        }
        i = i + 1;
    }
    proof {
        assert(c@.take(c@.len() as int) =~= c@);
    }
    r
}

/// Remove one occurrence of a value from a sorted vector, locating it by
/// binary search on the value.
fn remove_value(c: &mut Vec<u64>, a: u64)
    requires
        sorted(old(c)@),
        old(c)@.to_multiset().count(a) >= 1,
    ensures
        sorted(final(c)@),
        final(c)@.to_multiset() == old(c)@.to_multiset().remove(a),
        final(c)@.len() + 1 == old(c)@.len(),
{
    let i = lower_bound(c, a);
    proof {
        broadcast use vstd::seq_lib::group_to_multiset_ensures;

        assert(c@.contains(a));
        let j = choose|j: int| 0 <= j < c@.len() && c@[j] == a;
        assert(i <= j);
        assert(c@[i as int] == a);
    }
    let _ = c.remove(i);
    proof {
        lemma_remove_to_multiset(old(c)@, i as int);
        let s = old(c)@;
        assert forall|p: int, q: int| 0 <= p <= q < c@.len() implies c@[p] <= c@[q] by {
            if q < i {
                assert(c@[p] == s[p] && c@[q] == s[q]);
            } else if p >= i {
                assert(c@[p] == s[p + 1] && c@[q] == s[q + 1]);
            } else {
                assert(c@[p] == s[p] && c@[q] == s[q + 1]);
            }
        }
    }
}


/// Node timestamps are strictly increasing.
pub open spec fn ts_increasing(s: Seq<PosWithTimestamp>) -> bool {
    forall|i: int, j: int| 0 <= i < j < s.len() ==> s[i].timestamp < s[j].timestamp
}

/// The number of leading nodes whose timestamp is before `t`: for a way in
/// timestamp order, the index where a node with timestamp `t` belongs.
pub open spec fn ts_lb(s: Seq<PosWithTimestamp>, t: i64) -> int
    decreases s.len(),
{
    if s.len() == 0 {
        0
    } else if s[0].timestamp < t {
        1 + ts_lb(s.drop_first(), t)
    } else {
        0
    }
}

/// `ts_lb` is the unique boundary between timestamps before `t` and the rest.
pub proof fn lemma_ts_lb_char(s: Seq<PosWithTimestamp>, t: i64, i: int)
    requires
        0 <= i <= s.len(),
        forall|k: int| 0 <= k < i ==> s[k].timestamp < t,
        i < s.len() ==> t <= s[i].timestamp,
    ensures
        ts_lb(s, t) == i,
    decreases s.len(),
{
    if s.len() == 0 {
    } else if i == 0 {
    } else {
        lemma_ts_lb_char(s.drop_first(), t, i - 1);
    }
}

/// The node that a recorded sample becomes.
pub open spec fn node_of<P: RecordedPos>(p: P) -> PosWithTimestamp {
    PosWithTimestamp {
        pos: Position {
            coords: p.spec_coords(),
            altitude: p.spec_altitude(),
            accuracy: p.spec_accuracy(),
            altitude_accuracy: p.spec_altitude_accuracy(),
        },
        timestamp: p.spec_timestamp(),
    }
}

/// What adding a sample to a recorded way does to the node sequence: a node
/// with the same timestamp is replaced, any other sample is inserted where
/// its timestamp belongs.
pub open spec fn upserted(s: Seq<PosWithTimestamp>, p: PosWithTimestamp) -> Seq<PosWithTimestamp> {
    let i = ts_lb(s, p.timestamp);
    if i < s.len() && s[i].timestamp == p.timestamp {
        s.update(i, p)
    } else {
        s.insert(i, p)
    }
}

/// A recorded way: a way whose nodes are in strictly increasing timestamp
/// order, fed one sample at a time.
pub struct RecordedWay {
    pub way: Way<PosWithTimestamp>,
}

impl RecordedWay {
    /// The way is well formed and its timestamps strictly increase.
    pub open spec fn wf(&self) -> bool {
        self.way.wf() && ts_increasing(self.way@)
    }

    /// An empty recording.
    pub fn new() -> (r: RecordedWay)
        ensures
            r.wf(),
            r.way@ == Seq::<PosWithTimestamp>::empty(),
            !r.way.has_cache(),
    {
        RecordedWay { way: Way::new() }
    }

    /// The underlying way.
    pub fn way(&self) -> (r: &Way<PosWithTimestamp>)
        ensures
            r == &self.way,
    {
        &self.way
    }

    /// Add a sample to the recording: append if its timestamp is past the
    /// last node's, replace the node with an equal timestamp, insert in
    /// timestamp order otherwise.
    pub fn add<P: RecordedPos>(&mut self, pos: &P)
        requires
            old(self).wf(),
        ensures
            final(self).wf(),
            final(self).way@ == upserted(old(self).way@, node_of(*pos)),
            final(self).way.has_cache() == old(self).way.has_cache(),
    {
        let ghost s = self.way@;
        let node = PosWithTimestamp::from_recorded(pos);
        proof {
            assert(node == node_of(*pos));
        }
        let t = node.timestamp;
        let n = self.way.nodes().len();
        let append_at_end = n == 0 || self.way.nodes()[n - 1].timestamp < t;
        if append_at_end {
            proof {
                assert forall|k: int| 0 <= k < s.len() implies s[k].timestamp < t by {
                    if k < s.len() - 1 {
                        assert(s[k].timestamp < s[s.len() - 1].timestamp);
                    }
                }
                lemma_ts_lb_char(s, t, s.len() as int);
                assert(s.insert(s.len() as int, node) =~= s.push(node));
            }
            self.way.append(node);
        } else {
            let i = ts_lower_bound(self.way.nodes(), t);
            proof {
                lemma_ts_lb_char(s, t, i as int);
            }
            if i < n && self.way.nodes()[i].timestamp == t {
                self.way.update(i, node);
                proof {
                    let u = s.update(i as int, node);
                    assert forall|p: int, q: int| 0 <= p < q < u.len() implies u[p].timestamp
                        < u[q].timestamp by {
                        assert(s[p].timestamp < s[q].timestamp);
                    }
                }
            } else {
                self.way.insert(i, node);
                proof {
                    let u = s.insert(i as int, node);
                    s.insert_ensures(i as int, node);
                    assert forall|p: int, q: int| 0 <= p < q < u.len() implies u[p].timestamp
                        < u[q].timestamp by {
                        if p < i && q == i {
                        } else if p == i && q > i {
                            assert(u[q] == s[q - 1]);
                            assert(t <= s[i as int].timestamp && t != s[i as int].timestamp);
                            if q - 1 > i {
                                assert(s[i as int].timestamp < s[q - 1].timestamp);
                            }
                        } else if p < i && q > i {
                            assert(u[p] == s[p] && u[q] == s[q - 1]);
                        } else if q < i {
                            assert(u[p] == s[p] && u[q] == s[q]);
                        } else {
                            assert(u[p] == s[p - 1] && u[q] == s[q - 1]);
                        }
                    }
                }
            }
        }
    }

    /// All positions since the given timestamp, inclusive: the suffix of the
    /// way from the first node whose timestamp is not before `timestamp`.
    pub fn get_since(&self, timestamp: i64) -> (r: Vec<PosWithTimestamp>)
        requires
            self.wf(),
        ensures
            r@ == self.way@.skip(ts_lb(self.way@, timestamp)),
    {
        let ghost s = self.way@;
        let i = ts_lower_bound(self.way.nodes(), timestamp);
        proof {
            lemma_ts_lb_char(s, timestamp, i as int);
        }
        let n = self.way.nodes().len();
        let mut r: Vec<PosWithTimestamp> = Vec::new();
        let mut k: usize = i;
        proof {
            assert(r@ =~= s.subrange(i as int, i as int));
        }
        while k < n
            invariant
                i <= k <= n,
                n == s.len(),
                self.way@ == s,
                r@ == s.subrange(i as int, k as int),
            decreases n - k,
        {
            r.push(self.way.nodes()[k]);
            proof {
                assert(s.subrange(i as int, k as int).push(s[k as int]) =~= s.subrange(
                    i as int,
                    k as int + 1,
                ));
            }
            k = k + 1;
        }
        proof {
            assert(s.subrange(i as int, n as int) =~= s.skip(i as int));
        }
        r
    }
}

/// Where a timestamp belongs in a way ordered by increasing timestamps.
fn ts_lower_bound(c: &Vec<PosWithTimestamp>, t: i64) -> (r: usize)
    requires
        ts_increasing(c@),
    ensures
        0 <= r <= c@.len(),
        forall|k: int| 0 <= k < r ==> c@[k].timestamp < t,
        forall|k: int| r <= k < c@.len() ==> t <= c@[k].timestamp,
{
    let mut lo: usize = 0;
    let mut hi: usize = c.len();
    while lo < hi
        invariant
            0 <= lo <= hi <= c@.len(),
            ts_increasing(c@),
            forall|k: int| 0 <= k < lo ==> c@[k].timestamp < t,
            forall|k: int| hi <= k < c@.len() ==> t <= c@[k].timestamp,
        decreases hi - lo,
    {
        let mid = lo + (hi - lo) / 2;
        if c[mid].timestamp < t {
            proof {
                assert forall|k: int| 0 <= k < mid + 1 implies c@[k].timestamp < t by {
                    if k < mid {
                        assert(c@[k].timestamp < c@[mid as int].timestamp);
                    }
                }
            }
            lo = mid + 1;
        } else {
            proof {
                assert forall|k: int| mid <= k < c@.len() implies t <= c@[k].timestamp by {
                    if k > mid {
                        assert(c@[mid as int].timestamp < c@[k].timestamp);
                    }
                }
            }
            hi = mid;
        }
    }
    lo
}


impl<T: Coords + Copy> Way<T> {
    /// An equal copy of this way.
    pub fn duplicate(&self) -> (r: Way<T>)
        requires
            self.wf(),
        ensures
            r.wf(),
            r@ == self@,
            r.has_cache() == self.has_cache(),
    {
        let mut nodes: Vec<T> = Vec::new();
        let mut i: usize = 0;
        while i < self.nodes.len()
            invariant
                0 <= i <= self.nodes@.len(),
                nodes@ == self.nodes@.take(i as int),
            decreases self.nodes@.len() - i,
        {
            nodes.push(self.nodes[i]);
            proof {
                assert(self.nodes@.take(i as int).push(self.nodes@[i as int]) =~= self.nodes@.take(
                    i as int + 1,
                ));
            }
            i = i + 1;
        }
        proof {
            assert(self.nodes@.take(self.nodes@.len() as int) =~= self.nodes@);
        }
        let accuracies = copy_vec(&self.accuracies);
        Way {
            nodes,
            length_mm: self.length_mm,
            accs_init: self.accs_init,
            accuracies,
        }
    }
}

impl RecordedWay {
    /// An equal copy of this recording.
    pub fn duplicate(&self) -> (r: RecordedWay)
        requires
            self.wf(),
        ensures
            r.wf(),
            r.way@ == self.way@,
            r.way.has_cache() == self.way.has_cache(),
    {
        RecordedWay { way: self.way.duplicate() }
    }
}


/// For every well-formed way, the cached length equals the sum of the
/// great-circle distances between consecutive nodes.
pub proof fn lemma_length_is_sum<T: Coords>(w: &Way<T>)
    requires
        w.wf(),
    ensures
        w.spec_length() == dists_sum(w@),
{
}

/// For every well-formed way whose accuracy cache has been materialised,
/// the cache is the sorted arrangement of the nodes' reported accuracies.
pub proof fn lemma_accuracies_sorted<T: Coords>(w: &Way<T>)
    requires
        w.wf(),
        w.has_cache(),
    ensures
        sorted(w.spec_accuracies()),
        w.spec_accuracies().to_multiset() == accs_ms(w@),
{
}

/// Adding a sample whose timestamp equals an existing node's replaces that
/// node and keeps the node count; any other sample grows the way by one
/// node, at the place its timestamp belongs.
pub proof fn lemma_upserted_len(s: Seq<PosWithTimestamp>, p: PosWithTimestamp)
    requires
        ts_increasing(s),
    ensures
        upserted(s, p).len() == if exists|i: int|
            0 <= i < s.len() && (#[trigger] s[i]).timestamp == p.timestamp {
            s.len()
        } else {
            s.len() + 1
        },
{
    let t = p.timestamp;
    if exists|i: int| 0 <= i < s.len() && (#[trigger] s[i]).timestamp == t {
        let i = choose|i: int| 0 <= i < s.len() && (#[trigger] s[i]).timestamp == t;
        assert forall|k: int| 0 <= k < i implies s[k].timestamp < t by {
            assert(s[k].timestamp < s[i].timestamp);
        }
        lemma_ts_lb_char(s, t, i);
    } else {
        let i = ts_lb(s, t);
        lemma_ts_lb_bounds(s, t);
        if i < s.len() && s[i].timestamp == t {
            assert(exists|j: int| 0 <= j < s.len() && (#[trigger] s[j]).timestamp == t);
        }
        s.insert_ensures(i, p);
    }
}

/// The boundary index lies within the sequence.
pub proof fn lemma_ts_lb_bounds(s: Seq<PosWithTimestamp>, t: i64)
    ensures
        0 <= ts_lb(s, t) <= s.len(),
    decreases s.len(),
{
    if s.len() > 0 && s[0].timestamp < t {
        lemma_ts_lb_bounds(s.drop_first(), t);
    }
}

} // verus!
