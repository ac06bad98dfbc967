//! Free-list allocator over one descriptor heap of 64 slots, whose occupancy
//! is one bit per slot in a 64-bit mask.
use crate::descriptor::{slot_address, CpuDescriptor, HeapError, NativeHeap};
use vstd::prelude::*;
use vstd::std_specs::bits::{axiom_u64_trailing_zeros, u64_trailing_zeros};

verus! {

/// Number of slots in a [`Heap`].
pub const HEAP_SIZE_FIXED: usize = 64;

/// Fixed-size free-list allocator for the slots of one descriptor heap.
#[derive(Debug)]
pub struct Heap {
    // One bit per slot: 1 for a free slot, 0 for an occupied one.
    availability: u64,
    handle_size: usize,
    start: usize,
}

/// Mathematical state of a [`Heap`].
pub struct HeapView {
    /// Address of slot 0.
    pub start: nat,
    /// Address increment from one slot to the next.
    pub handle_size: nat,
    /// The slots that are free.
    pub free: Set<nat>,
}

/// All the slots of a heap.
pub open spec fn all_slots() -> Set<nat> {
    Set::new(|slot: nat| slot < HEAP_SIZE_FIXED)
}

impl HeapView {
    /// The state right after construction over `native`.
    pub open spec fn fresh(native: NativeHeap) -> HeapView {
        HeapView {
            start: native.start as nat,
            handle_size: native.handle_size as nat,
            free: all_slots(),
        }
    }

    /// Only slots of the heap are free, and every slot address is
    /// representable.
    pub open spec fn wf(self) -> bool {
        &&& self.free.subset_of(all_slots())
        &&& slot_address(self.start, self.handle_size, HEAP_SIZE_FIXED as nat) <= usize::MAX
    }

    /// No slot is free.
    pub open spec fn is_full(self) -> bool {
        self.free =~= Set::<nat>::empty()
    }

    /// `slot` is free and no slot below it is.
    pub open spec fn is_lowest_free(self, slot: nat) -> bool {
        &&& self.free.contains(slot)
        &&& forall|below: nat| below < slot ==> !self.free.contains(below)
    }

    /// The free slot with the lowest index, where there is one.
    pub open spec fn lowest_free(self) -> nat {
        choose|slot: nat| self.is_lowest_free(slot)
    }

    /// Address that the next allocation returns.
    pub open spec fn next_address(self) -> nat {
        slot_address(self.start, self.handle_size, self.lowest_free())
    }

    /// State after one allocation: the lowest free slot is occupied, the
    /// others are as before.
    pub open spec fn after_alloc(self) -> HeapView {
        HeapView { free: self.free.remove(self.lowest_free()), ..self }
    }

    /// State after `n` consecutive allocations.
    pub open spec fn after_allocs(self, n: nat) -> HeapView
        decreases n,
    {
        if n == 0 {
            self
        } else {
            self.after_allocs((n - 1) as nat).after_alloc()
        }
    }

    /// Number of occupied slots.
    pub open spec fn occupied(self) -> nat {
        (HEAP_SIZE_FIXED - self.free.len()) as nat
    }
}

/// Bit `slot` of `mask` is set.
pub open spec fn bit_is_set(mask: u64, slot: nat) -> bool {
    slot < 64 && (mask >> (slot as u64)) & 1 == 1
}

/// The slots whose bit is set in `mask`.
pub open spec fn slots_of(mask: u64) -> Set<nat> {
    Set::new(|slot: nat| bit_is_set(mask, slot))
}

/// At most one slot is the lowest free one.
pub proof fn lemma_lowest_free_unique(heap: HeapView, slot: nat)
    requires
        heap.is_lowest_free(slot),
    ensures
        heap.lowest_free() == slot,
{
}

/// The position of the lowest set bit of a mask that is not zero is the
/// lowest slot of its set.
proof fn lemma_trailing_zeros_is_lowest(mask: u64)
    requires
        mask != 0,
    ensures
        u64_trailing_zeros(mask) < 64,
        bit_is_set(mask, u64_trailing_zeros(mask) as nat),
        forall|below: nat|
            below < u64_trailing_zeros(mask) ==> !slots_of(mask).contains(below),
{
    axiom_u64_trailing_zeros(mask);
    assert forall|below: nat| below < u64_trailing_zeros(mask) implies !slots_of(mask).contains(
        below,
    ) by {
        let j = below as u64;
        assert((mask >> j) & 1u64 == 0u64);
    }
}

/// Flipping one set bit of a mask clears it and leaves the others alone.
proof fn lemma_flip_removes(mask: u64, slot: u64)
    requires
        slot < 64,
        bit_is_set(mask, slot as nat),
    ensures
        slots_of(mask ^ (1u64 << slot)) =~= slots_of(mask).remove(slot as nat),
{
    let flipped = mask ^ (1u64 << slot);
    assert forall|other: nat| slots_of(flipped).contains(other) == slots_of(mask).remove(
        slot as nat,
    ).contains(other) by {
        if other < 64 {
            let j = other as u64;
            assert(((mask ^ (1u64 << slot)) >> j) & 1 == 1 <==> (mask >> j) & 1 == 1 && j != slot)
                by (bit_vector)
                requires
                    slot < 64,
                    j < 64,
                    (mask >> slot) & 1 == 1,
            ;
        }
    }
}

/// The mask with every bit set stands for all the slots, the zero mask for
/// none, and no other mask stands for none.
proof fn lemma_extreme_masks(mask: u64)
    ensures
        slots_of(0xffff_ffff_ffff_ffffu64) =~= all_slots(),
        slots_of(0u64) =~= Set::<nat>::empty(),
        slots_of(mask).subset_of(all_slots()),
        mask != 0 ==> !(slots_of(mask) =~= Set::<nat>::empty()),
{
    let ones = slots_of(0xffff_ffff_ffff_ffffu64);
    assert forall|slot: nat| ones.contains(slot) == all_slots().contains(slot) by {
        if slot < 64 {
            let j = slot as u64;
            assert((0xffff_ffff_ffff_ffffu64 >> j) & 1 == 1) by (bit_vector)
                requires
                    j < 64,
            ;
        }
    }
    assert forall|slot: nat| !slots_of(0u64).contains(slot) by {
        if slot < 64 {
            let j = slot as u64;
            assert((0u64 >> j) & 1 == 0) by (bit_vector);
        }
    }
    if mask != 0 {
        lemma_trailing_zeros_is_lowest(mask);
        assert(slots_of(mask).contains(u64_trailing_zeros(mask) as nat));
    }
}

impl View for Heap {
    type V = HeapView;

    closed spec fn view(&self) -> HeapView {
        HeapView {
            start: self.start as nat,
            handle_size: self.handle_size as nat,
            free: slots_of(self.availability),
        }
    }
}

impl Heap {
    /// Validity of the allocator's state.
    pub open spec fn wf(&self) -> bool {
        self@.wf()
    }

    /// Takes over a heap of [`HEAP_SIZE_FIXED`] slots that the device
    /// created.
    ///
    /// Fails with the device's status code when creation failed, and with
    /// [`HeapError::AddressRange`] when the slots do not fit the address
    /// space; otherwise every slot starts free.
    pub fn new(native: NativeHeap) -> (r: Result<Heap, HeapError>)
        ensures
            match r {
                Ok(heap) => native.check(HEAP_SIZE_FIXED as nat) is Ok && heap.wf() && heap@
                    == HeapView::fresh(native),
                Err(e) => native.check(HEAP_SIZE_FIXED as nat) == Err::<(), HeapError>(e),
            },
    {
        match native.validate(HEAP_SIZE_FIXED) {
            Err(e) => Err(e),
            Ok(()) => {
                proof {
                    lemma_extreme_masks(0);
                }
                Ok(
                    Heap {
                        availability: 0xffff_ffff_ffff_ffffu64,
                        handle_size: native.handle_size,
                        start: native.start,
                    },
                )
            },
        }
    }

    /// Occupies the free slot with the lowest index and returns its address.
    pub fn alloc_handle(&mut self) -> (handle: CpuDescriptor)
        requires
            old(self).wf(),
            !old(self)@.is_full(),
        ensures
            final(self).wf(),
            final(self)@ == old(self)@.after_alloc(),
            old(self)@.is_lowest_free(old(self)@.lowest_free()),
            handle.ptr == old(self)@.next_address(),
    {
        proof {
            lemma_extreme_masks(self.availability);
            lemma_trailing_zeros_is_lowest(self.availability);
        }
        // Find the first free slot.
        let found: u32 = self.availability.trailing_zeros();
        let slot: usize = found as usize;
        proof {
            lemma_lowest_free_unique(self@, slot as nat);
            lemma_flip_removes(self.availability, slot as u64);
            crate::descriptor::lemma_slot_address_monotonic(
                self.start as nat,
                self.handle_size as nat,
                slot as nat,
                HEAP_SIZE_FIXED as nat,
            );
            assert(self.handle_size * slot >= 0) by (nonlinear_arith);
        }
        // Mark the slot as occupied.
        self.availability = self.availability ^ (1u64 << (slot as u64));
        CpuDescriptor { ptr: self.start + self.handle_size * slot }
    }

    /// Whether every slot is occupied.
    pub fn is_full(&self) -> (full: bool)
        ensures
            full == self@.is_full(),
    {
        proof {
            lemma_extreme_masks(self.availability);
        }
        self.availability == 0
    }

    /// Whether `slot` is a slot of this heap that is free.
    pub fn is_free(&self, slot: usize) -> (free: bool)
        ensures
            free == self@.free.contains(slot as nat),
    {
        slot < HEAP_SIZE_FIXED && (self.availability >> (slot as u64)) & 1 == 1
    }
}

/// The slots from `from` up to the end of a heap.
pub open spec fn slots_from(from: nat) -> Set<nat> {
    Set::new(|slot: nat| from <= slot < HEAP_SIZE_FIXED)
}

/// There are `64 - from` slots from `from` upward.
pub proof fn lemma_slots_from_len(from: nat)
    requires
        from <= HEAP_SIZE_FIXED,
    ensures
        slots_from(from).finite(),
        slots_from(from).len() == HEAP_SIZE_FIXED - from,
        slots_from(0) =~= all_slots(),
    decreases HEAP_SIZE_FIXED - from,
{
    if from == HEAP_SIZE_FIXED {
        assert(slots_from(from) =~= Set::<nat>::empty());
    } else {
        lemma_slots_from_len(from + 1);
        assert(slots_from(from) =~= slots_from(from + 1).insert(from));
    }
}

/// A set of slots with a member has a lowest member.
proof fn lemma_lowest_free_exists(heap: HeapView, member: nat, from: nat)
    requires
        heap.free.contains(member),
        from <= member,
        forall|below: nat| below < from ==> !heap.free.contains(below),
    ensures
        heap.is_lowest_free(heap.lowest_free()),
    decreases member - from,
{
    if heap.free.contains(from) {
        assert(heap.is_lowest_free(from));
    } else {
        lemma_lowest_free_exists(heap, member, from + 1);
    }
}

/// An allocation from a valid heap that is not full occupies exactly the
/// lowest free slot: that slot was free, nothing below it was, and afterwards
/// one more slot is occupied in a heap that is still valid.
pub proof fn lemma_alloc_takes_lowest(heap: HeapView)
    requires
        heap.wf(),
        !heap.is_full(),
    ensures
        heap.is_lowest_free(heap.lowest_free()),
        heap.lowest_free() < HEAP_SIZE_FIXED,
        !heap.after_alloc().free.contains(heap.lowest_free()),
        heap.after_alloc().wf(),
        heap.occupied() < HEAP_SIZE_FIXED,
        heap.after_alloc().occupied() == heap.occupied() + 1,
{
    let member = choose|slot: nat| heap.free.contains(slot);
    lemma_lowest_free_exists(heap, member, 0);
    lemma_slots_from_len(0);
    vstd::set_lib::lemma_len_subset(heap.free, all_slots());
}

/// The number of occupied slots tells whether a valid heap is full.
pub proof fn lemma_full_iff_all_occupied(heap: HeapView)
    requires
        heap.wf(),
    ensures
        heap.occupied() <= HEAP_SIZE_FIXED,
        heap.is_full() <==> heap.occupied() == HEAP_SIZE_FIXED,
{
    lemma_slots_from_len(0);
    vstd::set_lib::lemma_len_subset(heap.free, all_slots());
}

/// Allocating every slot of a heap that starts with all slots free visits
/// the slots in ascending order: the allocation that follows `k` others
/// takes slot `k`, at that slot's address, and the heap is full exactly
/// after 64 of them.
pub proof fn lemma_allocations_ascend(heap: HeapView, k: nat)
    requires
        heap.free == all_slots(),
        k <= HEAP_SIZE_FIXED,
    ensures
        heap.after_allocs(k).free =~= slots_from(k),
        heap.after_allocs(k).occupied() == k,
        heap.after_allocs(k).is_full() <==> k == HEAP_SIZE_FIXED,
        k < HEAP_SIZE_FIXED ==> heap.after_allocs(k).lowest_free() == k,
        k < HEAP_SIZE_FIXED ==> heap.after_allocs(k).next_address() == slot_address(
            heap.start,
            heap.handle_size,
            k,
        ),
        heap.after_allocs(k).start == heap.start,
        heap.after_allocs(k).handle_size == heap.handle_size,
    decreases k,
{
    lemma_slots_from_len(k);
    if k > 0 {
        let before = heap.after_allocs((k - 1) as nat);
        lemma_allocations_ascend(heap, (k - 1) as nat);
        assert(before.after_alloc().free =~= slots_from(k));
    }
    if k < HEAP_SIZE_FIXED {
        lemma_lowest_free_unique(heap.after_allocs(k), k);
    }
}

} // verus!
