//! Bump allocator over one descriptor heap: slots are given out in order and
//! reclaimed only all at once.
use crate::descriptor::{
    lemma_slot_address_monotonic, slot_address, CpuDescriptor, HeapError, NativeHeap,
};
use vstd::prelude::*;

verus! {

/// Linear stack allocator for the slots of one descriptor heap.
#[derive(Debug)]
pub struct HeapLinear {
    handle_size: usize,
    num: usize,
    size: usize,
    start: usize,
}

/// Mathematical state of a [`HeapLinear`].
pub struct LinearView {
    /// Address of slot 0.
    pub start: nat,
    /// Address increment from one slot to the next.
    pub handle_size: nat,
    /// Number of slots in the heap.
    pub capacity: nat,
    /// Number of slots given out since the last reset.
    pub allocated: nat,
}

impl LinearView {
    /// The state right after construction over `native` with `capacity`
    /// slots.
    pub open spec fn fresh(native: NativeHeap, capacity: nat) -> LinearView {
        LinearView {
            start: native.start as nat,
            handle_size: native.handle_size as nat,
            capacity,
            allocated: 0,
        }
    }

    /// The cursor is within the heap and every slot address is
    /// representable.
    pub open spec fn wf(self) -> bool {
        &&& self.allocated <= self.capacity
        &&& slot_address(self.start, self.handle_size, self.capacity) <= usize::MAX
    }

    /// No slot is left.
    pub open spec fn is_full(self) -> bool {
        self.allocated >= self.capacity
    }

    /// Address that the next allocation returns.
    pub open spec fn next_address(self) -> nat {
        slot_address(self.start, self.handle_size, self.allocated)
    }

    /// State after one allocation.
    pub open spec fn after_alloc(self) -> LinearView {
        LinearView { allocated: self.allocated + 1, ..self }
    }

    /// State after a reset.
    pub open spec fn clear(self) -> LinearView {
        LinearView { allocated: 0, ..self }
    }

    /// State after `n` consecutive allocations.
    pub open spec fn after_allocs(self, n: nat) -> LinearView
        decreases n,
    {
        if n == 0 {
            self
        } else {
            self.after_allocs((n - 1) as nat).after_alloc()
        }
    }
}

impl View for HeapLinear {
    type V = LinearView;

    closed spec fn view(&self) -> LinearView {
        LinearView {
            start: self.start as nat,
            handle_size: self.handle_size as nat,
            capacity: self.size as nat,
            allocated: self.num as nat,
        }
    }
}

impl HeapLinear {
    /// Validity of the allocator's state.
    pub open spec fn wf(&self) -> bool {
        self@.wf()
    }

    /// Takes over a heap of `size` slots that the device created.
    ///
    /// Fails with the device's status code when creation failed, and with
    /// [`HeapError::AddressRange`] when the slots do not fit the address
    /// space; otherwise the allocator starts empty.
    pub fn new(native: NativeHeap, size: usize) -> (r: Result<HeapLinear, HeapError>)
        ensures
            match r {
                Ok(heap) => native.check(size as nat) is Ok && heap.wf() && heap@
                    == LinearView::fresh(native, size as nat),
                Err(e) => native.check(size as nat) == Err::<(), HeapError>(e),
            },
    {
        match native.validate(size) {
            Err(e) => Err(e),
            Ok(()) => Ok(
                HeapLinear { handle_size: native.handle_size, num: 0, size, start: native.start },
            ),
        }
    }

    /// Gives out the next slot in order and advances the cursor by one.
    pub fn alloc_handle(&mut self) -> (handle: CpuDescriptor)
        requires
            old(self).wf(),
            !old(self)@.is_full(),
        ensures
            final(self).wf(),
            final(self)@ == old(self)@.after_alloc(),
            handle.ptr == old(self)@.next_address(),
    {
        let slot: usize = self.num;
        proof {
            lemma_slot_address_monotonic(
                self.start as nat,
                self.handle_size as nat,
                slot as nat,
                self.size as nat,
            );
            assert(self.handle_size * slot >= 0) by (nonlinear_arith);
        }
        self.num += 1;
        CpuDescriptor { ptr: self.start + self.handle_size * slot }
    }

    /// Whether every slot has been given out.
    pub fn is_full(&self) -> (full: bool)
        ensures
            full == self@.is_full(),
    {
        self.num >= self.size
    }

    /// Starts a new period: the cursor returns to slot 0 and the slots are
    /// given out again from there.
    pub fn clear(&mut self)
        requires
            old(self).wf(),
        ensures
            final(self).wf(),
            final(self)@ == old(self)@.clear(),
    {
        self.num = 0;
    }
}

/// Consecutive allocations only move the cursor: after `n` of them, for
/// which the heap has room, it stands `n` slots further and the state is
/// still valid.
pub proof fn lemma_after_allocs(heap: LinearView, n: nat)
    requires
        heap.wf(),
        heap.allocated + n <= heap.capacity,
    ensures
        heap.after_allocs(n) == (LinearView { allocated: heap.allocated + n, ..heap }),
        heap.after_allocs(n).wf(),
    decreases n,
{
    if n > 0 {
        lemma_after_allocs(heap, (n - 1) as nat);
    }
}

/// A heap of capacity `C` that starts empty serves exactly `C` consecutive
/// allocations: before each of the first `C` it is not full, and after them
/// it is.
pub proof fn lemma_capacity_is_exact(heap: LinearView, k: nat)
    requires
        heap.wf(),
        heap.allocated == 0,
        k <= heap.capacity,
    ensures
        heap.after_allocs(k).is_full() <==> k == heap.capacity,
{
    lemma_after_allocs(heap, k);
}

/// The allocations of one period come at stride-spaced addresses: the `i`-th
/// returns the address of slot `i`, two of them lie the stride times their
/// distance apart, and with a stride that is not zero the later one has the
/// strictly greater address.
pub proof fn lemma_addresses_are_stride_spaced(heap: LinearView, i: nat, j: nat)
    requires
        heap.wf(),
        heap.allocated == 0,
        i <= j < heap.capacity,
    ensures
        heap.after_allocs(i).next_address() == slot_address(heap.start, heap.handle_size, i),
        heap.after_allocs(j).next_address() - heap.after_allocs(i).next_address()
            == heap.handle_size * (j - i),
        heap.handle_size > 0 && i < j ==> heap.after_allocs(i).next_address()
            < heap.after_allocs(j).next_address(),
{
    lemma_after_allocs(heap, i);
    lemma_after_allocs(heap, j);
    lemma_slot_address_monotonic(heap.start, heap.handle_size, i, j);
}

/// A reset brings back the state the heap started with, whatever was
/// allocated in between, so the next allocation returns the first address
/// again and the whole sequence of addresses repeats.
pub proof fn lemma_clear_restarts(heap: LinearView, n: nat, k: nat)
    requires
        heap.wf(),
        heap.allocated == 0,
        n <= heap.capacity,
    ensures
        heap.after_allocs(n).clear() == heap,
        heap.after_allocs(n).clear().next_address() == heap.start,
        heap.after_allocs(n).clear().after_allocs(k) == heap.after_allocs(k),
{
    lemma_after_allocs(heap, n);
    assert(heap.handle_size * 0 == 0) by (nonlinear_arith);
}

} // verus!
