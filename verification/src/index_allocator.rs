//! Dense identifiers with a fixed cap, recycled after use.

use vstd::prelude::*;

verus! {

/// The smallest index in `[from, capacity)` that is not in `used`, if any.
pub open spec fn lowest_vacant_from(used: Set<u64>, from: nat, capacity: nat) -> Option<u64>
    decreases capacity - from,
{
    if from >= capacity {
        None
    } else if !used.contains(from as u64) {
        Some(from as u64)
    } else {
        lowest_vacant_from(used, from + 1, capacity)
    }
}

/// The smallest index below `capacity` that is not in `used`, if any.
pub open spec fn lowest_vacant(used: Set<u64>, capacity: nat) -> Option<u64> {
    lowest_vacant_from(used, 0, capacity)
}

/// What `lowest_vacant_from` returns is vacant, within bounds, and nothing
/// between `from` and it is vacant; it returns `None` only when the whole range
/// is taken.
pub proof fn lemma_lowest_vacant_from(used: Set<u64>, from: nat, capacity: nat)
    requires
        capacity <= u64::MAX,
    ensures
        match lowest_vacant_from(used, from, capacity) {
            Some(i) => {
                &&& from <= i < capacity
                &&& !used.contains(i)
                &&& forall|j: u64| from <= j < i ==> used.contains(j)
            },
            None => forall|j: u64| from <= j < capacity ==> used.contains(j),
        },
    decreases capacity - from,
{
    if from < capacity && used.contains(from as u64) {
        lemma_lowest_vacant_from(used, from + 1, capacity);
    }
}

/// A vacant index with nothing vacant below it is the one `lowest_vacant` names.
pub proof fn lemma_lowest_vacant_is(used: Set<u64>, from: nat, capacity: nat, i: u64)
    requires
        capacity <= u64::MAX,
        from <= i < capacity,
        !used.contains(i),
        forall|j: u64| from <= j < i ==> used.contains(j),
    ensures
        lowest_vacant_from(used, from, capacity) == Some(i),
    decreases i - from,
{
    if from < i {
        assert(used.contains(from as u64));
        lemma_lowest_vacant_is(used, from + 1, capacity, i);
    }
}

/// When every index from `from` on is taken, nothing is vacant.
pub proof fn lemma_lowest_vacant_none(used: Set<u64>, from: nat, capacity: nat)
    requires
        capacity <= u64::MAX,
        forall|j: u64| from <= j < capacity ==> used.contains(j),
    ensures
        lowest_vacant_from(used, from, capacity) is None,
    decreases capacity - from,
{
    if from < capacity {
        assert(used.contains(from as u64));
        lemma_lowest_vacant_from(used, from + 1, capacity);
        lemma_lowest_vacant_none(used, from + 1, capacity);
    }
}

/// A node of the tree over the indices. A node stands for a range of
/// indices: a leaf for one index, an inner node for the ranges of its two
/// children, the lower half to the left.
enum Node {
    Leaf { occupied: bool },
    Inner { vacant: bool, left: Box<Node>, right: Box<Node> },
}

/// Where the range `[lo, hi)` is split between the children of its node.
spec fn middle(lo: int, hi: int) -> int {
    lo + (hi - lo) / 2
}

impl Node {
    /// Whether some index of the node's range is vacant, as the node has it
    /// noted.
    spec fn has_vacant(self) -> bool {
        match self {
            Node::Leaf { occupied } => !occupied,
            Node::Inner { vacant, .. } => vacant,
        }
    }

    /// Whether the index `i` of the node's range `[lo, hi)` is in use.
    spec fn occupied_at(self, lo: int, hi: int, i: int) -> bool
        decreases self,
    {
        match self {
            Node::Leaf { occupied } => occupied,
            Node::Inner { left, right, .. } => if i < middle(lo, hi) {
                left.occupied_at(lo, middle(lo, hi), i)
            } else {
                right.occupied_at(middle(lo, hi), hi, i)
            },
        }
    }

    /// The node stands for the range `[lo, hi)`: it is a leaf exactly when
    /// the range is one index, and an inner node notes whether one of its
    /// children has a vacant index.
    spec fn wf(self, lo: int, hi: int) -> bool
        decreases self,
    {
        match self {
            Node::Leaf { .. } => hi - lo == 1,
            Node::Inner { vacant, left, right } => {
                &&& hi - lo >= 2
                &&& left.wf(lo, middle(lo, hi))
                &&& right.wf(middle(lo, hi), hi)
                &&& vacant == (left.has_vacant() || right.has_vacant())
            },
        }
    }

    /// A node has a vacant index noted exactly when one of its indices is
    /// vacant.
    proof fn lemma_has_vacant(self, lo: int, hi: int)
        requires
            self.wf(lo, hi),
        ensures
            self.has_vacant() <==> exists|i: int| lo <= i < hi && !self.occupied_at(lo, hi, i),
        decreases self,
    {
        match self {
            Node::Leaf { occupied } => {
                if !occupied {
                    assert(!self.occupied_at(lo, hi, lo));
                }
            },
            Node::Inner { vacant, left, right } => {
                let mid = middle(lo, hi);
                left.lemma_has_vacant(lo, mid);
                right.lemma_has_vacant(mid, hi);
                if left.has_vacant() {
                    let i = choose|i: int| lo <= i < mid && !left.occupied_at(lo, mid, i);
                    assert(!self.occupied_at(lo, hi, i));
                }
                if right.has_vacant() {
                    let i = choose|i: int| mid <= i < hi && !right.occupied_at(mid, hi, i);
                    assert(!self.occupied_at(lo, hi, i));
                }
                if exists|i: int| lo <= i < hi && !self.occupied_at(lo, hi, i) {
                    let i = choose|i: int| lo <= i < hi && !self.occupied_at(lo, hi, i);
                    if i < mid {
                        assert(!left.occupied_at(lo, mid, i));
                    } else {
                        assert(!right.occupied_at(mid, hi, i));
                    }
                }
            },
        }
    }

    /// The tree for the range `[lo, hi)`, with every index vacant.
    fn build(lo: usize, hi: usize) -> (r: Node)
        requires
            lo < hi,
        ensures
            r.wf(lo as int, hi as int),
            r.has_vacant(),
            forall|i: int| lo <= i < hi ==> !r.occupied_at(lo as int, hi as int, i),
        decreases hi - lo,
    {
        if hi - lo == 1 {
            Node::Leaf { occupied: false }
        } else {
            let mid = lo + (hi - lo) / 2;
            let left = Node::build(lo, mid);
            let right = Node::build(mid, hi);
            let r = Node::Inner { vacant: true, left: Box::new(left), right: Box::new(right) };
            assert forall|i: int| lo <= i < hi implies !r.occupied_at(lo as int, hi as int, i) by {
                if i < mid {
                    assert(!left.occupied_at(lo as int, mid as int, i));
                } else {
                    assert(!right.occupied_at(mid as int, hi as int, i));
                }
            }
            r
        }
    }

    /// Whether the index `i` of the range is in use.
    fn is_occupied(&self, lo: usize, hi: usize, i: usize) -> (r: bool)
        requires
            self.wf(lo as int, hi as int),
            lo <= i < hi,
        ensures
            r == self.occupied_at(lo as int, hi as int, i as int),
        decreases self,
    {
        match self {
            Node::Leaf { occupied } => *occupied,
            Node::Inner { left, right, .. } => {
                let mid = lo + (hi - lo) / 2;
                if i < mid {
                    left.is_occupied(lo, mid, i)
                } else {
                    right.is_occupied(mid, hi, i)
                }
            },
        }
    }

    /// Takes the smallest vacant index of the range.
    fn take(&mut self, lo: usize, hi: usize) -> (r: usize)
        requires
            old(self).wf(lo as int, hi as int),
            old(self).has_vacant(),
        ensures
            final(self).wf(lo as int, hi as int),
            lo <= r < hi,
            !old(self).occupied_at(lo as int, hi as int, r as int),
            forall|j: int| lo <= j < r ==> old(self).occupied_at(lo as int, hi as int, j),
            forall|j: int|
                lo <= j < hi ==> final(self).occupied_at(lo as int, hi as int, j) == (old(
                    self,
                ).occupied_at(lo as int, hi as int, j) || j == r),
        decreases hi - lo,
    {
        match self {
            Node::Leaf { occupied } => {
                *occupied = true;
                proof {
                    assert(!old(self).occupied_at(lo as int, hi as int, lo as int));
                    assert forall|j: int| lo <= j < hi implies final(self).occupied_at(
                        lo as int,
                        hi as int,
                        j,
                    ) == (old(self).occupied_at(lo as int, hi as int, j) || j == lo) by {}
                }
                lo
            },
            Node::Inner { vacant, left, right } => {
                let mid = lo + (hi - lo) / 2;
                let ghost old_left = **left;
                let ghost old_right = **right;
                proof {
                    old_left.lemma_has_vacant(lo as int, mid as int);
                }
                let taken = if left.vacant_noted() {
                    left.take(lo, mid)
                } else {
                    right.take(mid, hi)
                };
                *vacant = left.vacant_noted() || right.vacant_noted();
                proof {
                    assert forall|j: int| lo <= j < hi implies old(self).occupied_at(
                        lo as int,
                        hi as int,
                        j,
                    ) == if j < mid {
                        old_left.occupied_at(lo as int, mid as int, j)
                    } else {
                        old_right.occupied_at(mid as int, hi as int, j)
                    } by {}
                    assert forall|j: int| lo <= j < hi implies final(self).occupied_at(
                        lo as int,
                        hi as int,
                        j,
                    ) == if j < mid {
                        left.occupied_at(lo as int, mid as int, j)
                    } else {
                        right.occupied_at(mid as int, hi as int, j)
                    } by {}
                }
                taken
            },
        }
    }

    /// Whether some index of the node's range is vacant.
    fn vacant_noted(&self) -> (r: bool)
        ensures
            r == self.has_vacant(),
    {
        match self {
            Node::Leaf { occupied } => !*occupied,
            Node::Inner { vacant, .. } => *vacant,
        }
    }

    /// Gives the index `i` of the range back.
    fn release(&mut self, lo: usize, hi: usize, i: usize)
        requires
            old(self).wf(lo as int, hi as int),
            lo <= i < hi,
        ensures
            final(self).wf(lo as int, hi as int),
            forall|j: int|
                lo <= j < hi ==> final(self).occupied_at(lo as int, hi as int, j) == (old(
                    self,
                ).occupied_at(lo as int, hi as int, j) && j != i),
        decreases hi - lo,
    {
        match self {
            Node::Leaf { occupied } => {
                *occupied = false;
                proof {
                    assert forall|j: int| lo <= j < hi implies final(self).occupied_at(
                        lo as int,
                        hi as int,
                        j,
                    ) == (old(self).occupied_at(lo as int, hi as int, j) && j != i) by {}
                }
            },
            Node::Inner { vacant, left, right } => {
                let mid = lo + (hi - lo) / 2;
                let ghost old_left = **left;
                let ghost old_right = **right;
                if i < mid {
                    left.release(lo, mid, i);
                } else {
                    right.release(mid, hi, i);
                }
                *vacant = left.vacant_noted() || right.vacant_noted();
                proof {
                    assert forall|j: int| lo <= j < hi implies old(self).occupied_at(
                        lo as int,
                        hi as int,
                        j,
                    ) == if j < mid {
                        old_left.occupied_at(lo as int, mid as int, j)
                    } else {
                        old_right.occupied_at(mid as int, hi as int, j)
                    } by {}
                    assert forall|j: int| lo <= j < hi implies final(self).occupied_at(
                        lo as int,
                        hi as int,
                        j,
                    ) == if j < mid {
                        left.occupied_at(lo as int, mid as int, j)
                    } else {
                        right.occupied_at(mid as int, hi as int, j)
                    } by {}
                }
            },
        }
    }
}

/// Hands out the smallest unused index below a fixed capacity and takes
/// indices back.
///
/// The indices are the leaves of a balanced tree whose inner nodes note
/// whether an index below them is vacant, so that taking and giving back an
/// index walk one path from the root.
pub struct IndexAllocator {
    root: Option<Node>,
    capacity: usize,
}

impl IndexAllocator {
    /// The number of indices that can be in use at once.
    pub closed spec fn capacity(&self) -> nat {
        self.capacity as nat
    }

    /// The indices in use.
    pub closed spec fn view(&self) -> Set<u64> {
        Set::new(
            |i: u64|
                i < self.capacity && self.root is Some && self.root->Some_0.occupied_at(
                    0,
                    self.capacity as int,
                    i as int,
                ),
        )
    }

    /// The tree stands for the indices below the capacity.
    pub closed spec fn wf(&self) -> bool {
        match self.root {
            Some(root) => self.capacity > 0 && root.wf(0, self.capacity as int),
            None => self.capacity == 0,
        }
    }

    /// Every index in use lies below the capacity.
    pub proof fn lemma_in_use_below_capacity(&self)
        ensures
            forall|i: u64| self@.contains(i) ==> i < self.capacity(),
    {
    }

    /// An allocator with `capacity` indices, none of them in use.
    pub fn new(capacity: usize) -> (r: Self)
        ensures
            r.wf(),
            r.capacity() == capacity,
            r@ == Set::<u64>::empty(),
    {
        let root = if capacity == 0 {
            None
        } else {
            Some(Node::build(0, capacity))
        };
        let r = IndexAllocator { root, capacity };
        assert(r@ =~= Set::<u64>::empty());
        r
    }

    /// Whether `index` is in use.
    pub fn is_allocated(&self, index: u64) -> (r: bool)
        requires
            self.wf(),
        ensures
            r == self@.contains(index),
    {
        if index < self.capacity as u64 {
            match &self.root {
                Some(root) => root.is_occupied(0, self.capacity, index as usize),
                None => false,
            }
        } else {
            false
        }
    }

    /// Takes the smallest vacant index, or reports that all are in use.
    pub fn next_index(&mut self) -> (r: Option<u64>)
        requires
            old(self).wf(),
        ensures
            final(self).wf(),
            final(self).capacity() == old(self).capacity(),
            r == lowest_vacant(old(self)@, old(self).capacity()),
            r is None ==> final(self)@ == old(self)@,
            r is None <==> (forall|i: u64| i < old(self).capacity() ==> old(self)@.contains(i)),
            r matches Some(i) ==> {
                &&& i < old(self).capacity()
                &&& !old(self)@.contains(i)
                &&& (forall|j: u64| j < i ==> old(self)@.contains(j))
                &&& final(self)@ == old(self)@.insert(i)
            },
    {
        let capacity = self.capacity;
        match &mut self.root {
            None => {
                proof {
                    lemma_lowest_vacant_none(old(self)@, 0, 0);
                }
                None
            },
            Some(root) => {
                proof {
                    root.lemma_has_vacant(0, capacity as int);
                }
                if !root.vacant_noted() {
                    proof {
                        assert forall|i: u64| i < capacity implies old(self)@.contains(i) by {
                            assert(root.occupied_at(0, capacity as int, i as int));
                        }
                        lemma_lowest_vacant_none(old(self)@, 0, capacity as nat);
                    }
                    return None;
                }
                let index = root.take(0, capacity);
                proof {
                    assert(!old(self)@.contains(index as u64));
                    assert forall|j: u64| j < index implies old(self)@.contains(j) by {
                        assert(old(self).root->Some_0.occupied_at(0, capacity as int, j as int));
                    }
                    lemma_lowest_vacant_is(old(self)@, 0, capacity as nat, index as u64);
                    assert(final(self)@ =~= old(self)@.insert(index as u64));
                }
                Some(index as u64)
            },
        }
    }

    /// Gives `index` back. An index that is not in use, or that lies outside
    /// the capacity, is left as it is.
    pub fn free_index(&mut self, index: u64)
        requires
            old(self).wf(),
        ensures
            final(self).wf(),
            final(self).capacity() == old(self).capacity(),
            final(self)@ == old(self)@.remove(index),
    {
        let capacity = self.capacity;
        if index < capacity as u64 {
            match &mut self.root {
                Some(root) => {
                    root.release(0, capacity, index as usize);
                },
                None => {},
            }
        }
        assert(self@ =~= old(self)@.remove(index));
    }
}

} // verus!
