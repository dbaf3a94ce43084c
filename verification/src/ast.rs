//! The binary-tree layer: a root index plus parent/child wiring over
//! arena-resident nodes.

use vstd::prelude::*;

verus! {

use crate::SENTINEL;
use crate::node_allocator::NodeAllocator;

/// One tree node: a payload plus two child references. A child reference is
/// either a live arena index or [`SENTINEL`] for "no child".
pub struct ASTNode<T: Copy> {
    data: T,
    l: u32,
    r: u32,
}

impl<T: Copy> ASTNode<T> {
    /// The payload.
    pub closed spec fn spec_data(self) -> T {
        self.data
    }

    /// The left child reference.
    pub closed spec fn spec_left(self) -> u32 {
        self.l
    }

    /// The right child reference.
    pub closed spec fn spec_right(self) -> u32 {
        self.r
    }

    /// A fresh node carrying `data`, with no children.
    pub fn new(data: T) -> (r: Self)
        ensures
            r.spec_data() == data,
            r.spec_left() == SENTINEL,
            r.spec_right() == SENTINEL,
    {
        ASTNode { data, l: SENTINEL, r: SENTINEL }
    }

    /// The payload.
    pub fn data(&self) -> (r: &T)
        ensures
            *r == self.spec_data(),
    {
        &self.data
    }

    /// The stored left child reference, possibly the sentinel.
    pub fn left(&self) -> (r: u32)
        ensures
            r == self.spec_left(),
    {
        self.l
    }

    /// The stored right child reference, possibly the sentinel.
    pub fn right(&self) -> (r: u32)
        ensures
            r == self.spec_right(),
    {
        self.r
    }
}

impl<T: Copy + Default> Default for ASTNode<T> {
    /// A node carrying the payload type's default value, with no children.
    fn default() -> (r: Self)
        ensures
            r.spec_left() == SENTINEL,
            r.spec_right() == SENTINEL,
    {
        ASTNode { data: T::default(), l: SENTINEL, r: SENTINEL }
    }
}

/// A binary tree of at most `MAX_SIZE` nodes: a root reference plus one
/// exclusively owned arena of [`ASTNode`] slots. The tree performs no
/// allocation policy of its own; it forwards to the arena and maintains the
/// root.
pub struct AST<T: Copy, const MAX_SIZE: usize> {
    root: u32,
    allocator: NodeAllocator<ASTNode<T>, MAX_SIZE>,
}

impl<T: Copy, const MAX_SIZE: usize> AST<T, MAX_SIZE> {
    /// The live nodes, as a map from arena index to node.
    pub closed spec fn nodes(self) -> Map<u32, ASTNode<T>> {
        self.allocator@
    }

    /// The root reference: [`SENTINEL`] while the tree is empty.
    pub closed spec fn spec_root(self) -> u32 {
        self.root
    }

    /// The number of live nodes.
    pub closed spec fn spec_len(self) -> usize {
        self.allocator.spec_len()
    }

    /// The owned arena is well-formed.
    pub closed spec fn inv(self) -> bool {
        self.allocator.wf()
    }

    /// Structural soundness: the arena is consistent, the live count is
    /// within the capacity, and the root is either the sentinel (exactly
    /// when the tree is empty) or a live index.
    pub open spec fn wf(self) -> bool {
        &&& self.inv()
        &&& MAX_SIZE < SENTINEL as usize
        &&& self.spec_len() <= MAX_SIZE
        &&& (self.spec_root() == SENTINEL || self.nodes().dom().contains(self.spec_root()))
        &&& (self.spec_root() == SENTINEL <==> self.spec_len() == 0)
    }

    /// An empty tree: no root, no nodes. The capacity must stay below the
    /// sentinel so that every index is distinct from it.
    pub fn new() -> (r: Self)
        requires
            MAX_SIZE < SENTINEL as usize,
        ensures
            r.wf(),
            r.spec_root() == SENTINEL,
            r.nodes() == Map::<u32, ASTNode<T>>::empty(),
            r.spec_len() == 0,
    {
        AST { root: SENTINEL, allocator: NodeAllocator::new() }
    }

    /// Adds a node carrying `data` with no children. When the arena has room
    /// the call returns the fresh index, and only the very first node added
    /// to an empty tree becomes the root; when the arena is full the call
    /// returns [`SENTINEL`] and leaves the tree unchanged.
    pub fn add_node(&mut self, data: T) -> (r: u32)
        requires
            old(self).wf(),
        ensures
            final(self).wf(),
            old(self).spec_len() < MAX_SIZE ==> {
                &&& r != SENTINEL
                &&& (r as usize) < MAX_SIZE
                &&& !old(self).nodes().dom().contains(r)
                &&& final(self).nodes().dom().contains(r)
                &&& final(self).nodes()[r].spec_data() == data
                &&& final(self).nodes()[r].spec_left() == SENTINEL
                &&& final(self).nodes()[r].spec_right() == SENTINEL
                &&& (forall|j: u32|
                    j != r ==> (final(self).nodes().dom().contains(j) <==> old(
                        self,
                    ).nodes().dom().contains(j)))
                &&& (forall|j: u32|
                    j != r && old(self).nodes().dom().contains(j) ==> final(self).nodes()[j]
                        == old(self).nodes()[j])
                &&& final(self).spec_len() == old(self).spec_len() + 1
                &&& final(self).spec_root() == if old(self).spec_root() == SENTINEL {
                    r
                } else {
                    old(self).spec_root()
                }
            },
            old(self).spec_len() == MAX_SIZE ==> r == SENTINEL && *final(self) == *old(self),
    {
        let new_node: u32 = self.allocator.add_node(ASTNode::new(data));
        if self.root == SENTINEL {
            self.root = new_node;
        }
        new_node
    }

    /// Overwrites the left child reference of a live `parent` with `child`,
    /// unconditionally: no cycle or liveness check is made on `child`, and
    /// the parent's payload and right child are untouched.
    pub fn set_left_child(&mut self, parent: u32, child: u32)
        requires
            old(self).wf(),
            old(self).nodes().dom().contains(parent),
        ensures
            final(self).wf(),
            final(self).nodes().dom() == old(self).nodes().dom(),
            final(self).nodes()[parent].spec_left() == child,
            final(self).nodes()[parent].spec_right() == old(self).nodes()[parent].spec_right(),
            final(self).nodes()[parent].spec_data() == old(self).nodes()[parent].spec_data(),
            forall|j: u32|
                j != parent && old(self).nodes().dom().contains(j) ==> final(self).nodes()[j]
                    == old(self).nodes()[j],
            final(self).spec_root() == old(self).spec_root(),
            final(self).spec_len() == old(self).spec_len(),
    {
        let node = self.allocator.get_mut(parent);
        node.l = child;
        proof {
            assert(self.nodes().dom() =~= old(self).nodes().dom());
        }
    }

    /// Overwrites the right child reference of a live `parent` with `child`,
    /// unconditionally; the parent's payload and left child are untouched.
    pub fn set_right_child(&mut self, parent: u32, child: u32)
        requires
            old(self).wf(),
            old(self).nodes().dom().contains(parent),
        ensures
            final(self).wf(),
            final(self).nodes().dom() == old(self).nodes().dom(),
            final(self).nodes()[parent].spec_right() == child,
            final(self).nodes()[parent].spec_left() == old(self).nodes()[parent].spec_left(),
            final(self).nodes()[parent].spec_data() == old(self).nodes()[parent].spec_data(),
            forall|j: u32|
                j != parent && old(self).nodes().dom().contains(j) ==> final(self).nodes()[j]
                    == old(self).nodes()[j],
            final(self).spec_root() == old(self).spec_root(),
            final(self).spec_len() == old(self).spec_len(),
    {
        let node = self.allocator.get_mut(parent);
        node.r = child;
        proof {
            assert(self.nodes().dom() =~= old(self).nodes().dom());
        }
    }

    /// The payload at `node`: `None` exactly when `node` is the sentinel.
    /// Any other argument must be a live index.
    pub fn get_node(&self, node: u32) -> (r: Option<&T>)
        requires
            self.wf(),
            node == SENTINEL || self.nodes().dom().contains(node),
        ensures
            r is Some <==> node != SENTINEL,
            node != SENTINEL ==> *r.unwrap() == self.nodes()[node].spec_data(),
    {
        if node == SENTINEL {
            None
        } else {
            Some(&self.allocator.get(node).data)
        }
    }

    /// Mutable access to the payload at `node`: `None` exactly when `node` is
    /// the sentinel, and then the tree is unchanged. For a live index,
    /// whatever the caller writes through the reference becomes that node's
    /// payload; its children, every other node, the root and the length are
    /// unchanged.
    pub fn get_node_mut(&mut self, node: u32) -> (r: Option<&mut T>)
        requires
            old(self).wf(),
            node == SENTINEL || old(self).nodes().dom().contains(node),
        ensures
            final(self).wf(),
            r is Some <==> node != SENTINEL,
            node == SENTINEL ==> *final(self) == *old(self),
            node != SENTINEL ==> {
                &&& *r.unwrap() == old(self).nodes()[node].spec_data()
                &&& (forall|j: u32|
                    final(self).nodes().dom().contains(j) <==> old(self).nodes().dom().contains(
                        j,
                    ))
                &&& final(self).nodes()[node].spec_data() == *final(r.unwrap())
                &&& final(self).nodes()[node].spec_left() == old(self).nodes()[node].spec_left()
                &&& final(self).nodes()[node].spec_right() == old(
                    self,
                ).nodes()[node].spec_right()
                &&& (forall|j: u32|
                    j != node && old(self).nodes().dom().contains(j) ==> final(self).nodes()[j]
                        == old(self).nodes()[j])
                &&& final(self).spec_root() == old(self).spec_root()
                &&& final(self).spec_len() == old(self).spec_len()
            },
    {
        if node == SENTINEL {
            None
        } else {
            let slot = self.allocator.get_mut(node);
            Some(&mut slot.data)
        }
    }

    /// The left child of a live `node`: `None` exactly when the stored
    /// reference is the sentinel.
    pub fn get_left_child(&self, node: u32) -> (r: Option<u32>)
        requires
            self.wf(),
            self.nodes().dom().contains(node),
        ensures
            r == if self.nodes()[node].spec_left() == SENTINEL {
                None::<u32>
            } else {
                Some(self.nodes()[node].spec_left())
            },
    {
        let child: u32 = self.allocator.get(node).l;
        if child == SENTINEL {
            None
        } else {
            Some(child)
        }
    }

    /// The right child of a live `node`: `None` exactly when the stored
    /// reference is the sentinel.
    pub fn get_right_child(&self, node: u32) -> (r: Option<u32>)
        requires
            self.wf(),
            self.nodes().dom().contains(node),
        ensures
            r == if self.nodes()[node].spec_right() == SENTINEL {
                None::<u32>
            } else {
                Some(self.nodes()[node].spec_right())
            },
    {
        let child: u32 = self.allocator.get(node).r;
        if child == SENTINEL {
            None
        } else {
            Some(child)
        }
    }

    /// The root index: `None` exactly when the tree is empty.
    pub fn get_root(&self) -> (r: Option<u32>)
        requires
            self.wf(),
        ensures
            r == if self.spec_root() == SENTINEL {
                None::<u32>
            } else {
                Some(self.spec_root())
            },
            r is None <==> self.spec_len() == 0,
    {
        if self.root == SENTINEL {
            None
        } else {
            Some(self.root)
        }
    }

    /// The number of live nodes, `0 <= len() <= capacity()`.
    pub fn len(&self) -> (r: usize)
        requires
            self.wf(),
        ensures
            r == self.spec_len(),
            r <= MAX_SIZE,
    {
        self.allocator.size()
    }

    /// Whether the tree holds no nodes.
    pub fn is_empty(&self) -> (r: bool)
        requires
            self.wf(),
        ensures
            r == (self.spec_len() == 0),
            r == (self.spec_root() == SENTINEL),
    {
        self.len() == 0
    }

    /// The fixed capacity bound, independent of occupancy and constant over
    /// the tree's lifetime.
    pub fn capacity(&self) -> (r: usize)
        ensures
            r == MAX_SIZE,
    {
        MAX_SIZE
    }

    /// The length reported for the tree is exactly the number of live nodes:
    /// successful additions minus arena-level removals never drift from the
    /// contents.
    pub proof fn lemma_len_is_live_count(self)
        requires
            self.wf(),
        ensures
            self.nodes().dom().finite(),
            self.nodes().dom().len() == self.spec_len(),
    {
        self.allocator.lemma_len_is_live_count();
    }

    /// No live node index equals the sentinel, and every live index lies
    /// below the fixed capacity.
    pub proof fn lemma_live_index_bounded(self, i: u32)
        requires
            self.wf(),
            self.nodes().dom().contains(i),
        ensures
            (i as usize) < MAX_SIZE,
            i != SENTINEL,
    {
        self.allocator.lemma_live_index_bounded(i);
    }
}

/// Successive successful additions return distinct indices: an addition
/// returns an index that was not live and leaves it live, and every index
/// returned earlier (and not removed since) is still live when the next
/// addition picks its index. Here `t` is the tree just before the later
/// addition, `earlier` an index returned by some earlier addition, and
/// `later` the index the next addition returns.
pub proof fn lemma_added_indices_distinct<T: Copy, const MAX_SIZE: usize>(
    t: AST<T, MAX_SIZE>,
    earlier: u32,
    later: u32,
)
    requires
        t.nodes().dom().contains(earlier),
        !t.nodes().dom().contains(later),
    ensures
        earlier != later,
{
}

} // verus!
