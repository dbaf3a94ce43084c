//! A fixed-capacity slot arena addressed by `u32` indices.
//!
//! The arena hands out indices in `[0, MAX_SIZE)` on allocation and reclaims
//! them through a free list, so an index may be reused after release. Callers
//! hold indices, never addresses. Exhaustion is signalled by returning
//! [`SENTINEL`]; it is a recoverable condition, not a fault of the arena.

use vstd::prelude::*;

verus! {

use crate::SENTINEL;

/// Fixed-capacity storage of `MAX_SIZE` slots of type `V`.
///
/// Abstractly, an arena is a finite map from live `u32` indices to values
/// (its view) together with a live count. `slots` grows on demand up to
/// `MAX_SIZE`; `free` lists the indices of `slots` that have been released
/// and may be handed out again; `size` counts the live slots.
pub struct NodeAllocator<V, const MAX_SIZE: usize> {
    slots: Vec<V>,
    free: Vec<u32>,
    size: usize,
}

impl<V, const MAX_SIZE: usize> View for NodeAllocator<V, MAX_SIZE> {
    type V = Map<u32, V>;

    /// The live contents: every allocated-and-not-freed index, mapped to the
    /// value stored in its slot.
    closed spec fn view(&self) -> Map<u32, V> {
        Map::new(
            |i: u32| i < self.slots.len() && !self.free@.contains(i),
            |i: u32| self.slots[i as int],
        )
    }
}

impl<V, const MAX_SIZE: usize> NodeAllocator<V, MAX_SIZE> {
    /// The number of live slots.
    pub closed spec fn spec_len(self) -> usize {
        self.size
    }

    /// Internal consistency of the representation: the backing storage never
    /// exceeds the capacity, the free list names distinct allocated slots,
    /// and the live count is exactly the allocated slots minus the freed
    /// ones.
    pub closed spec fn inv(self) -> bool {
        &&& self.slots.len() <= MAX_SIZE
        &&& self.size + self.free.len() == self.slots.len()
        &&& forall|k: int| 0 <= k < self.free.len() ==> (#[trigger] self.free[k]) < self.slots.len()
        &&& self.free@.no_duplicates()
    }

    /// Well-formedness: the representation is consistent, the live count is
    /// within the capacity, and the capacity stays below the sentinel so
    /// every index fits a `u32` distinct from it.
    pub open spec fn wf(self) -> bool {
        &&& self.inv()
        &&& self.spec_len() <= MAX_SIZE
        &&& MAX_SIZE < SENTINEL as usize
    }

    /// An empty arena. The capacity must leave room for the sentinel to be
    /// distinct from every index.
    pub fn new() -> (r: Self)
        requires
            MAX_SIZE < SENTINEL as usize,
        ensures
            r.wf(),
            r@ == Map::<u32, V>::empty(),
            r.spec_len() == 0,
    {
        let r = NodeAllocator { slots: Vec::new(), free: Vec::new(), size: 0 };
        proof {
            assert(r@ =~= Map::<u32, V>::empty());
        }
        r
    }

    /// The fixed capacity bound.
    pub fn capacity(&self) -> (r: usize)
        ensures
            r == MAX_SIZE,
    {
        MAX_SIZE
    }

    /// No live index ever equals the sentinel, and every live index lies
    /// below the fixed capacity.
    pub proof fn lemma_live_index_bounded(self, i: u32)
        requires
            self.wf(),
            self@.dom().contains(i),
        ensures
            (i as usize) < MAX_SIZE,
            i != SENTINEL,
    {
    }

    /// The live count reported by `size` is exactly the cardinality of the
    /// live domain: allocations minus removals never drift from the contents.
    pub proof fn lemma_len_is_live_count(self)
        requires
            self.wf(),
        ensures
            self@.dom().finite(),
            self@.dom().len() == self.spec_len(),
    {
        broadcast use vstd::seq_lib::seq_to_set_is_finite;

        let n = self.slots.len() as int;
        let f = |x: u32| x as int;
        let fint = self.free@.map_values(f);
        assert(vstd::relations::injective(f)) by {
            assert(forall|x: u32, y: u32| #[trigger] f(x) == #[trigger] f(y) ==> x == y);
        }
        self.free@.lemma_no_duplicates_injective(f);
        fint.unique_seq_to_set();
        let fset = fint.to_set();
        let range = vstd::set_lib::set_int_range(0, n);
        vstd::set_lib::lemma_int_range(0, n);
        assert(fset.subset_of(range)) by {
            assert forall|x: int| #[trigger] fset.contains(x) implies range.contains(x) by {
                let k = choose|k: int| 0 <= k < fint.len() && fint[k] == x;
                assert(self.free@[k] < self.slots.len());
            }
        }
        vstd::set_lib::lemma_len_subset(fset, range);
        let live = range.difference(fset);
        vstd::set_lib::lemma_set_subset_finite(range, live);
        lemma_len_disjoint_union(live, fset);
        assert(live.union(fset) =~= range);
        let g = |x: int| x as u32;
        assert(vstd::relations::injective_on(g, live)) by {
            assert(forall|x: int, y: int|
                live.contains(x) && live.contains(y) && #[trigger] g(x) == #[trigger] g(y) ==> x
                    == y);
        }
        assert(live.map(g) =~= self@.dom()) by {
            assert forall|i: u32| #[trigger] self@.dom().contains(i) implies live.map(g).contains(
                i,
            ) by {
                assert(!fset.contains(i as int)) by {
                    if fset.contains(i as int) {
                        let k = choose|k: int| 0 <= k < fint.len() && fint[k] == i as int;
                        assert(self.free@[k] == i);
                        assert(self.free@.contains(i));
                    }
                }
                assert(live.contains(i as int) && g(i as int) == i);
            }
            assert forall|i: u32| #[trigger] live.map(g).contains(i) implies self@.dom().contains(
                i,
            ) by {
                let x = choose|x: int| live.contains(x) && g(x) == i;
                assert(!self.free@.contains(i)) by {
                    if self.free@.contains(i) {
                        let k = choose|k: int| 0 <= k < self.free@.len() && self.free@[k] == i;
                        assert(fint[k] == x);
                        assert(fset.contains(x));
                    }
                }
            }
        }
        vstd::set_lib::lemma_map_size(live, self@.dom(), g);
    }

    /// The current live count, `0 <= size() <= MAX_SIZE`.
    pub fn size(&self) -> (r: usize)
        requires
            self.wf(),
        ensures
            r == self.spec_len(),
            r <= MAX_SIZE,
    {
        self.size
    }

    /// Allocates a slot holding `value`. Returns a fresh or reclaimed index
    /// below the capacity when one is available, and [`SENTINEL`] when the
    /// arena already holds `MAX_SIZE` live slots, leaving it unchanged.
    pub fn add_node(&mut self, value: V) -> (r: u32)
        requires
            old(self).wf(),
        ensures
            final(self).wf(),
            old(self).spec_len() < MAX_SIZE ==> {
                &&& r != SENTINEL
                &&& (r as usize) < MAX_SIZE
                &&& !old(self)@.dom().contains(r)
                &&& final(self)@.dom().contains(r)
                &&& final(self)@[r] == value
                &&& (forall|j: u32|
                    j != r ==> (final(self)@.dom().contains(j) <==> old(self)@.dom().contains(
                        j,
                    )))
                &&& (forall|j: u32|
                    j != r && old(self)@.dom().contains(j) ==> final(self)@[j] == old(self)@[j])
                &&& final(self).spec_len() == old(self).spec_len() + 1
            },
            old(self).spec_len() == MAX_SIZE ==> r == SENTINEL && *final(self) == *old(self),
    {
        if self.size >= MAX_SIZE {
            return SENTINEL;
        }
        let popped = self.free.pop();
        match popped {
            Some(i) => {
                proof {
                    let fr = old(self).free@;
                    assert(fr[fr.len() - 1] == i);
                    assert(fr[fr.len() - 1] < old(self).slots.len());
                    assert forall|j: u32| #[trigger]
                        self.free@.contains(j) implies fr.contains(j) by {
                        let k = choose|k: int| 0 <= k < self.free@.len() && self.free@[k] == j;
                        assert(fr[k] == j);
                    }
                    assert(!self.free@.contains(i)) by {
                        if self.free@.contains(i) {
                            let k = choose|k: int|
                                0 <= k < self.free@.len() && self.free@[k] == i;
                            assert(fr[k] == i && fr[fr.len() - 1] == i && k != fr.len() - 1);
                        }
                    }
                    assert forall|j: u32| j != i && fr.contains(j) implies self.free@.contains(
                        j,
                    ) by {
                        let k = choose|k: int| 0 <= k < fr.len() && fr[k] == j;
                        assert(k != fr.len() - 1);
                        assert(self.free@[k] == j);
                    }
                }
                self.slots[i as usize] = value;
                self.size = self.size + 1;
                i
            },
            None => {
                let i: usize = self.slots.len();
                self.slots.push(value);
                self.size = self.size + 1;
                i as u32
            },
        }
    }

    /// A shared reference to the value at a live index.
    pub fn get(&self, i: u32) -> (r: &V)
        requires
            self.wf(),
            self@.dom().contains(i),
        ensures
            *r == self@[i],
    {
        &self.slots[i as usize]
    }

    /// A mutable reference to the value at a live index. Whatever the caller
    /// writes through it becomes the value at that index; every other slot,
    /// the live domain and the live count are unchanged.
    pub fn get_mut(&mut self, i: u32) -> (r: &mut V)
        requires
            old(self).wf(),
            old(self)@.dom().contains(i),
        ensures
            *r == old(self)@[i],
            final(self).wf(),
            final(self)@.dom().contains(i),
            final(self)@[i] == *final(r),
            forall|j: u32| final(self)@.dom().contains(j) <==> old(self)@.dom().contains(j),
            forall|j: u32|
                j != i && old(self)@.dom().contains(j) ==> final(self)@[j] == old(self)@[j],
            final(self).spec_len() == old(self).spec_len(),
    {
        &mut self.slots[i as usize]
    }

    /// Releases a live index back to the free list. The index leaves the live
    /// domain (its contents are invalidated until the index is reused); every
    /// other slot is unchanged and the live count drops by one.
    pub fn remove_node(&mut self, i: u32)
        requires
            old(self).wf(),
            old(self)@.dom().contains(i),
        ensures
            final(self).wf(),
            old(self).spec_len() >= 1,
            !final(self)@.dom().contains(i),
            forall|j: u32|
                j != i ==> (final(self)@.dom().contains(j) <==> old(self)@.dom().contains(j)),
            forall|j: u32|
                j != i && old(self)@.dom().contains(j) ==> final(self)@[j] == old(self)@[j],
            final(self).spec_len() == old(self).spec_len() - 1,
    {
        proof {
            lemma_distinct_indices_avoiding_one(self.free@, self.slots.len() as int, i);
            assert(self.free@.push(i).no_duplicates()) by {
                let fr = self.free@.push(i);
                assert forall|k1: int, k2: int|
                    0 <= k1 < fr.len() && 0 <= k2 < fr.len() && k1 != k2 implies fr[k1]
                    != fr[k2] by {
                    if k1 < fr.len() - 1 && k2 < fr.len() - 1 {
                        assert(self.free@[k1] != self.free@[k2]);
                    } else if k1 == fr.len() - 1 {
                        assert(self.free@[k2] == fr[k2] && self.free@.contains(fr[k2]));
                    } else {
                        assert(self.free@[k1] == fr[k1] && self.free@.contains(fr[k1]));
                    }
                }
            }
            assert forall|j: u32| #[trigger]
                self.free@.push(i).contains(j) implies self.free@.contains(j) || j == i by {
                let fr = self.free@.push(i);
                let k = choose|k: int| 0 <= k < fr.len() && fr[k] == j;
                if k < fr.len() - 1 {
                    assert(self.free@[k] == j);
                }
            }
            assert forall|j: u32| self.free@.contains(j) implies self.free@.push(i).contains(
                j,
            ) by {
                let k = choose|k: int| 0 <= k < self.free@.len() && self.free@[k] == j;
                assert(self.free@.push(i)[k] == j);
            }
            assert(self.free@.push(i)[self.free@.len() as int] == i);
            assert(self.free@.push(i).contains(i));
        }
        self.free.push(i);
        self.size = self.size - 1;
    }
}

/// A disjoint union of finite sets has the sum of their cardinalities.
proof fn lemma_len_disjoint_union<A>(s1: Set<A>, s2: Set<A>)
    requires
        s1.finite(),
        s2.finite(),
        s1.disjoint(s2),
    ensures
        s1.union(s2).finite(),
        s1.union(s2).len() == s1.len() + s2.len(),
    decreases s1.len(),
{
    if s1.len() == 0 {
        s1.lemma_len0_is_empty();
        assert(s1.union(s2) =~= s2);
    } else {
        let a = s1.choose();
        assert(s1.contains(a));
        assert(s1.remove(a).union(s2) =~= s1.union(s2).remove(a));
        lemma_len_disjoint_union(s1.remove(a), s2);
        assert(s1.union(s2) =~= s1.union(s2).remove(a).insert(a));
    }
}

/// A duplicate-free list of indices below `n` that avoids one such index `i`
/// cannot fill all `n` values: its length stays below `n`.
proof fn lemma_distinct_indices_avoiding_one(fr: Seq<u32>, n: int, i: u32)
    requires
        fr.no_duplicates(),
        forall|k: int| 0 <= k < fr.len() ==> (#[trigger] fr[k]) < n,
        !fr.contains(i),
        0 <= i < n,
    ensures
        fr.len() < n,
{
    let f = |x: u32| x as int;
    let fint = fr.map_values(f);
    assert(vstd::relations::injective(f));
    fr.lemma_no_duplicates_injective(f);
    fint.unique_seq_to_set();
    let avail = vstd::set_lib::set_int_range(0, n).remove(i as int);
    assert(fint.to_set().subset_of(avail)) by {
        assert forall|x: int| #[trigger] fint.to_set().contains(x) implies avail.contains(x) by {
            assert(fint.contains(x));
            let k = choose|k: int| 0 <= k < fint.len() && fint[k] == x;
            assert(fr[k] as int == x);
            assert(fr.contains(fr[k]));
        }
    }
    vstd::set_lib::lemma_int_range(0, n);
    assert(avail.len() == n - 1);
    vstd::set_lib::lemma_len_subset(fint.to_set(), avail);
}

} // verus!
