//! Values exchanged with the device when a descriptor heap is created, and
//! the handle that the allocators give out.
use vstd::prelude::*;

verus! {

/// Address of one descriptor slot: the base address of its heap plus the
/// slot index times the per-slot stride.
#[derive(Clone, Copy, Debug, PartialEq, Eq, Structural)]
pub struct CpuDescriptor {
    pub ptr: usize,
}

/// What the device reported when it was asked for a descriptor heap.
#[derive(Clone, Copy, Debug, PartialEq, Eq, Structural)]
pub struct NativeHeap {
    /// Address of slot 0.
    pub start: usize,
    /// Address increment from one slot to the next.
    pub handle_size: usize,
    /// Status code of the creation call; negative codes report failure.
    pub status: i32,
}

/// Why a descriptor heap could not be put to use.
#[derive(Clone, Copy, Debug, PartialEq, Eq, Structural)]
pub enum HeapError {
    /// The device failed to create the heap and reported this status code.
    Native(i32),
    /// The slots of the heap would not all have a representable address.
    AddressRange,
    /// A heap was offered to a pool that still has a heap with a free slot.
    NotNeeded,
}

/// Address of slot `slot` in a heap starting at `start` with stride
/// `handle_size`.
pub open spec fn slot_address(start: nat, handle_size: nat, slot: nat) -> nat {
    start + handle_size * slot
}

impl NativeHeap {
    /// The creation call succeeded.
    pub open spec fn created(self) -> bool {
        self.status >= 0
    }

    /// All `capacity` slots, and the end of the heap, have an address that
    /// fits the machine word.
    pub open spec fn spans(self, capacity: nat) -> bool {
        slot_address(self.start as nat, self.handle_size as nat, capacity) <= usize::MAX
    }

    /// Outcome of validating a created heap of `capacity` slots.
    pub open spec fn check(self, capacity: nat) -> Result<(), HeapError> {
        if !self.created() {
            Err(HeapError::Native(self.status))
        } else if !self.spans(capacity) {
            Err(HeapError::AddressRange)
        } else {
            Ok(())
        }
    }

    /// Validates what the device reported for a heap of `capacity` slots:
    /// a failed creation is passed on with its status code, and a heap whose
    /// slots would overflow the address space is refused.
    pub fn validate(&self, capacity: usize) -> (r: Result<(), HeapError>)
        ensures
            r == self.check(capacity as nat),
    {
        if self.status < 0 {
            return Err(HeapError::Native(self.status));
        }
        match self.handle_size.checked_mul(capacity) {
            None => Err(HeapError::AddressRange),
            Some(extent) => match self.start.checked_add(extent) {
                None => Err(HeapError::AddressRange),
                Some(_) => Ok(()),
            },
        }
    }
}

/// Slot addresses grow with the slot index, and strictly so when the stride
/// is not zero.
pub proof fn lemma_slot_address_monotonic(start: nat, handle_size: nat, i: nat, j: nat)
    requires
        i <= j,
    ensures
        slot_address(start, handle_size, i) <= slot_address(start, handle_size, j),
        slot_address(start, handle_size, j) - slot_address(start, handle_size, i) == handle_size
            * (j - i),
        handle_size > 0 && i < j ==> slot_address(start, handle_size, i) < slot_address(
            start,
            handle_size,
            j,
        ),
{
    assert(handle_size * j - handle_size * i == handle_size * (j - i)) by (nonlinear_arith);
    assert(handle_size * (j - i) >= 0) by (nonlinear_arith)
        requires
            i <= j,
    ;
    assert(handle_size > 0 && i < j ==> handle_size * (j - i) > 0) by (nonlinear_arith);
}

} // verus!
