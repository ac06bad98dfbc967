//! Pool of free-list heaps that grows by one heap whenever every heap it
//! holds is full.
use crate::descriptor::{CpuDescriptor, HeapError, NativeHeap};
use crate::fixed::{Heap, HeapView, HEAP_SIZE_FIXED};
use std::collections::HashSet;
use vstd::prelude::*;

verus! {

broadcast use vstd::std_specs::hash::group_hash_axioms;

/// Some member of `set`, or `None` for the empty set. Which member comes
/// depends on the order in which the set is walked.
fn any_member(set: &HashSet<usize>) -> (r: Option<usize>)
    ensures
        match r {
            Some(member) => set@.contains(member),
            None => set@ =~= Set::<usize>::empty(),
        },
{
    for member in walk: set.iter()
        invariant
            walk.index() == 0,
            walk.seq().unref().to_set() == set@,
            walk.seq().len() == 0 ==> set@ =~= Set::<usize>::empty(),
    {
        return Some(*member);
    }
    None
}

/// Manager of a growing collection of free-list heaps.
///
/// Besides the heaps it keeps the set of the indices of heaps known to have
/// a free slot, from which the heap of the next allocation is taken. A heap
/// is added only when that set is empty.
#[derive(Debug)]
pub struct DescriptorCpuPool {
    heaps: Vec<Heap>,
    free_list: HashSet<usize>,
}

/// Mathematical state of a [`DescriptorCpuPool`].
pub struct PoolView {
    /// The heaps, in the order of their creation.
    pub heaps: Seq<HeapView>,
    /// Indices of the heaps known to have a free slot.
    pub free_list: Set<usize>,
}

impl PoolView {
    /// The pool without heaps.
    pub open spec fn empty() -> PoolView {
        PoolView { heaps: Seq::empty(), free_list: Set::empty() }
    }

    /// Every heap is valid, every heap but the last one is full, and the
    /// set of heaps with a free slot names exactly the heaps that are not
    /// full.
    pub open spec fn wf(self) -> bool {
        &&& forall|id: int| 0 <= id < self.heaps.len() ==> (#[trigger] self.heaps[id]).wf()
        &&& forall|id: int|
            0 <= id < self.heaps.len() - 1 ==> (#[trigger] self.heaps[id]).is_full()
        &&& forall|id: usize| #[trigger] self.free_list.contains(id) <==> self.has_room(id as int)
    }

    /// The pool has a heap with index `id`, and that heap is not full.
    pub open spec fn has_room(self, id: int) -> bool {
        0 <= id < self.heaps.len() && !self.heaps[id].is_full()
    }

    /// No heap is known to have a free slot: the next allocation needs a new
    /// heap first.
    pub open spec fn needs_heap(self) -> bool {
        self.free_list =~= Set::<usize>::empty()
    }

    /// Index of the heap that serves the next allocation. In a valid pool
    /// only the last heap can have a free slot.
    pub open spec fn spare_heap(self) -> int {
        self.heaps.len() - 1
    }

    /// State after one allocation from the heap `spare_heap()`: that heap
    /// has one more occupied slot, and leaves the set of heaps with a free
    /// slot if it became full.
    pub open spec fn after_alloc(self) -> PoolView {
        let id = self.spare_heap();
        let heap = self.heaps[id].after_alloc();
        PoolView {
            heaps: self.heaps.update(id, heap),
            free_list: if heap.is_full() {
                self.free_list.remove(id as usize)
            } else {
                self.free_list
            },
        }
    }

    /// State after a heap created as `native` joined the pool.
    pub open spec fn after_add(self, native: NativeHeap) -> PoolView {
        PoolView {
            heaps: self.heaps.push(HeapView::fresh(native)),
            free_list: self.free_list.insert(self.heaps.len() as usize),
        }
    }

    /// Outcome of offering a heap created as `native` to the pool.
    pub open spec fn admits(self, native: NativeHeap) -> Result<(), HeapError> {
        if !self.needs_heap() {
            Err(HeapError::NotNeeded)
        } else {
            native.check(HEAP_SIZE_FIXED as nat)
        }
    }

    /// Number of handles given out: the occupied slots of all heaps.
    pub open spec fn allocated(self) -> nat {
        occupied_slots(self.heaps)
    }

    /// State after one handle was given out on demand: a heap is added
    /// first if the pool needs one, created as `natives` tells for its
    /// index.
    pub open spec fn after_handle(self, natives: spec_fn(int) -> NativeHeap) -> PoolView {
        if self.needs_heap() {
            self.after_add(natives(self.heaps.len() as int)).after_alloc()
        } else {
            self.after_alloc()
        }
    }

    /// State after `n` handles were given out on demand by a pool that
    /// started without heaps.
    pub open spec fn after_handles(n: nat, natives: spec_fn(int) -> NativeHeap) -> PoolView
        decreases n,
    {
        if n == 0 {
            PoolView::empty()
        } else {
            PoolView::after_handles((n - 1) as nat, natives).after_handle(natives)
        }
    }
}

/// Number of occupied slots in a sequence of heaps.
pub open spec fn occupied_slots(heaps: Seq<HeapView>) -> nat
    decreases heaps.len(),
{
    if heaps.len() == 0 {
        0
    } else {
        occupied_slots(heaps.drop_last()) + heaps.last().occupied()
    }
}

impl View for DescriptorCpuPool {
    type V = PoolView;

    closed spec fn view(&self) -> PoolView {
        PoolView {
            heaps: Seq::new(self.heaps@.len(), |id: int| self.heaps@[id]@),
            free_list: self.free_list@,
        }
    }
}

impl DescriptorCpuPool {
    /// Validity of the pool's state.
    pub open spec fn wf(&self) -> bool {
        self@.wf()
    }

    /// A pool without heaps.
    pub fn new() -> (pool: DescriptorCpuPool)
        ensures
            pool.wf(),
            pool@ == PoolView::empty(),
    {
        let pool = DescriptorCpuPool { heaps: Vec::new(), free_list: HashSet::new() };
        assert(pool@.heaps =~= Seq::<HeapView>::empty());
        pool
    }

    /// Whether a heap has to be created and added before the next
    /// allocation.
    pub fn needs_heap(&self) -> (needed: bool)
        ensures
            needed == self@.needs_heap(),
    {
        self.free_list.is_empty()
    }

    /// Number of heaps in the pool.
    pub fn heap_count(&self) -> (count: usize)
        ensures
            count == self@.heaps.len(),
    {
        self.heaps.len()
    }

    /// The heap with index `id`, if the pool has that many.
    pub fn heap(&self, id: usize) -> (heap: Option<&Heap>)
        ensures
            match heap {
                Some(heap) => id < self@.heaps.len() && heap@ == self@.heaps[id as int],
                None => id >= self@.heaps.len(),
            },
    {
        if id < self.heaps.len() {
            Some(&self.heaps[id])
        } else {
            None
        }
    }

    /// Whether the heap with index `id` is in the set of heaps known to
    /// have a free slot.
    pub fn has_spare(&self, id: usize) -> (spare: bool)
        ensures
            spare == self@.free_list.contains(id),
    {
        self.free_list.contains(&id)
    }

    /// Adds a heap of [`HEAP_SIZE_FIXED`] slots that the device created, and
    /// returns its index.
    ///
    /// The heap is refused with [`HeapError::NotNeeded`] while a heap of the
    /// pool has a free slot, otherwise for the reasons for which
    /// [`Heap::new`] fails. A refused heap leaves the pool as it was.
    pub fn add_heap(&mut self, native: NativeHeap) -> (r: Result<usize, HeapError>)
        requires
            old(self).wf(),
        ensures
            final(self).wf(),
            match r {
                Ok(id) => {
                    &&& old(self)@.admits(native) is Ok
                    &&& id == old(self)@.heaps.len()
                    &&& final(self)@ == old(self)@.after_add(native)
                    &&& final(self)@.allocated() == old(self)@.allocated()
                },
                Err(e) => {
                    &&& old(self)@.admits(native) == Err::<(), HeapError>(e)
                    &&& final(self)@ == old(self)@
                },
            },
    {
        if !self.free_list.is_empty() {
            return Err(HeapError::NotNeeded);
        }
        let heap = match Heap::new(native) {
            Ok(heap) => heap,
            Err(e) => {
                return Err(e);
            },
        };
        let id: usize = self.heaps.len();
        self.heaps.push(heap);
        self.free_list.insert(id);
        proof {
            assert(self@.heaps =~= old(self)@.heaps.push(HeapView::fresh(native)));
            assert(id < self.heaps.len());
            lemma_add_gives_none(old(self)@, native);
        }
        Ok(id)
    }

    /// Gives out a slot of a heap that has a free one.
    ///
    /// Returns `None`, and changes nothing, when no heap has a free slot:
    /// a heap has to be created and added with
    /// [`add_heap`](DescriptorCpuPool::add_heap) first. Otherwise the lowest
    /// free slot of the heap `spare_heap()` is occupied and its address
    /// returned; a heap that became full leaves the set of heaps with a free
    /// slot.
    pub fn alloc_handle(&mut self) -> (r: Option<CpuDescriptor>)
        requires
            old(self).wf(),
        ensures
            final(self).wf(),
            match r {
                Some(handle) => {
                    &&& !old(self)@.needs_heap()
                    &&& old(self)@.free_list.contains(old(self)@.spare_heap() as usize)
                    &&& final(self)@ == old(self)@.after_alloc()
                    &&& final(self)@.allocated() == old(self)@.allocated() + 1
                    &&& handle.ptr == old(self)@.heaps[old(self)@.spare_heap()].next_address()
                },
                None => old(self)@.needs_heap() && final(self)@ == old(self)@,
            },
    {
        let heap_id: usize = match any_member(&self.free_list) {
            Some(id) => id,
            None => {
                return None;
            },
        };
        proof {
            lemma_alloc_gives_one(old(self)@);
        }
        let heap = &mut self.heaps[heap_id];
        let handle = heap.alloc_handle();
        if heap.is_full() {
            self.free_list.remove(&heap_id);
        }
        proof {
            assert(self@.heaps =~= old(self)@.after_alloc().heaps);
        }
        Some(handle)
    }
}

/// Heaps that are all full hold 64 occupied slots each.
proof fn lemma_full_heaps(heaps: Seq<HeapView>)
    requires
        forall|id: int|
            0 <= id < heaps.len() ==> (#[trigger] heaps[id]).wf() && heaps[id].is_full(),
    ensures
        occupied_slots(heaps) == HEAP_SIZE_FIXED * heaps.len(),
    decreases heaps.len(),
{
    if heaps.len() > 0 {
        lemma_full_heaps(heaps.drop_last());
        crate::fixed::lemma_full_iff_all_occupied(heaps.last());
    }
}

/// In a valid pool every heap before the last is full, so the handles
/// given out are 64 for each of those heaps plus the occupied slots of the
/// last one.
pub proof fn lemma_allocated_by_heaps(pool: PoolView)
    requires
        pool.wf(),
    ensures
        pool.heaps.len() == 0 ==> pool.allocated() == 0,
        pool.heaps.len() > 0 ==> pool.allocated() == HEAP_SIZE_FIXED * (pool.heaps.len() - 1)
            + pool.heaps.last().occupied(),
        pool.heaps.len() > 0 ==> pool.heaps.last().occupied() <= HEAP_SIZE_FIXED,
{
    if pool.heaps.len() > 0 {
        lemma_full_heaps(pool.heaps.drop_last());
        crate::fixed::lemma_full_iff_all_occupied(pool.heaps.last());
    }
}

/// After `64 * k + 1` handles were given out, the pool holds exactly
/// `k + 1` heaps, and the last of them has exactly one occupied slot.
pub proof fn lemma_heap_count(pool: PoolView, k: nat)
    requires
        pool.wf(),
        pool.allocated() == HEAP_SIZE_FIXED * k + 1,
    ensures
        pool.heaps.len() == k + 1,
        pool.heaps.last().occupied() == 1,
{
    lemma_allocated_by_heaps(pool);
}

/// An allocation that a valid pool can serve gives out exactly one handle,
/// from a heap that was not full, and creates no heap.
pub proof fn lemma_alloc_gives_one(pool: PoolView)
    requires
        pool.wf(),
        !pool.needs_heap(),
    ensures
        pool.heaps.len() > 0,
        !pool.heaps[pool.spare_heap()].is_full(),
        pool.after_alloc().wf(),
        pool.after_alloc().heaps.len() == pool.heaps.len(),
        pool.after_alloc().allocated() == pool.allocated() + 1,
{
    let member = choose|id: usize| pool.free_list.contains(id);
    assert(pool.has_room(member as int));
    crate::fixed::lemma_alloc_takes_lowest(pool.heaps[pool.spare_heap()]);
    assert(pool.after_alloc().heaps.drop_last() =~= pool.heaps.drop_last());
}

/// A heap that a valid pool admits joins it empty, as its last heap and the
/// only one with a free slot; no handle is given out by that.
pub proof fn lemma_add_gives_none(pool: PoolView, native: NativeHeap)
    requires
        pool.wf(),
        pool.admits(native) is Ok,
        pool.heaps.len() < usize::MAX,
    ensures
        pool.after_add(native).wf(),
        !pool.after_add(native).needs_heap(),
        pool.after_add(native).heaps.len() == pool.heaps.len() + 1,
        pool.after_add(native).allocated() == pool.allocated(),
{
    let after = pool.after_add(native);
    let heap = HeapView::fresh(native);
    crate::fixed::lemma_slots_from_len(0);
    assert(after.heaps.drop_last() =~= pool.heaps);
    assert(after.free_list.contains(pool.heaps.len() as usize));
    assert forall|id: int| 0 <= id < after.heaps.len() - 1 implies (#[trigger]
    after.heaps[id]).is_full() by {
        assert(!pool.free_list.contains(id as usize));
    }
}

/// A pool that gives out handles on demand, over heaps that the device
/// created well, stays valid and has as many occupied slots as it gave out
/// handles.
pub proof fn lemma_handles_on_demand(n: nat, natives: spec_fn(int) -> NativeHeap)
    requires
        forall|id: int| (#[trigger] natives(id)).check(HEAP_SIZE_FIXED as nat) is Ok,
        n < usize::MAX,
    ensures
        PoolView::after_handles(n, natives).wf(),
        PoolView::after_handles(n, natives).allocated() == n,
        PoolView::after_handles(n, natives).heaps.len() <= n,
    decreases n,
{
    if n > 0 {
        let before = PoolView::after_handles((n - 1) as nat, natives);
        lemma_handles_on_demand((n - 1) as nat, natives);
        if before.needs_heap() {
            let native = natives(before.heaps.len() as int);
            lemma_add_gives_none(before, native);
            lemma_alloc_gives_one(before.after_add(native));
        } else {
            lemma_alloc_gives_one(before);
        }
    }
}

/// After `64 * k + 1` handles were given out on demand, the pool holds
/// exactly `k + 1` heaps, and the last of them has exactly one occupied
/// slot.
pub proof fn lemma_heaps_on_demand(k: nat, natives: spec_fn(int) -> NativeHeap)
    requires
        forall|id: int| (#[trigger] natives(id)).check(HEAP_SIZE_FIXED as nat) is Ok,
        HEAP_SIZE_FIXED * k + 1 < usize::MAX,
    ensures
        PoolView::after_handles(64 * k + 1, natives).heaps.len() == k + 1,
        PoolView::after_handles(64 * k + 1, natives).heaps.last().occupied() == 1,
{
    lemma_handles_on_demand(64 * k + 1, natives);
    lemma_heap_count(PoolView::after_handles(64 * k + 1, natives), k);
}

} // verus!
