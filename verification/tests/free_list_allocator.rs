use gpu_pools::descriptor::{HeapError, NativeHeap};
use gpu_pools::fixed::{Heap, HEAP_SIZE_FIXED};

fn created(start: usize, handle_size: usize) -> NativeHeap {
    NativeHeap { start, handle_size, status: 0 }
}

#[test]
fn fixed_capacity_is_sixty_four() {
    assert_eq!(HEAP_SIZE_FIXED, 64);
}

#[test]
fn fixed_starts_all_free() {
    let heap = Heap::new(created(0x8000, 16)).unwrap();
    assert!(!heap.is_full());
    for slot in 0..64 {
        assert!(heap.is_free(slot));
    }
    assert!(!heap.is_free(64));
    assert!(!heap.is_free(usize::MAX));
}

#[test]
fn fixed_visits_slots_in_ascending_order() {
    let mut heap = Heap::new(created(0x8000, 16)).unwrap();
    for slot in 0..64 {
        assert!(!heap.is_full());
        assert!(heap.is_free(slot));
        let handle = heap.alloc_handle();
        assert_eq!(handle.ptr, 0x8000 + 16 * slot);
        assert!(!heap.is_free(slot));
        if slot + 1 < 64 {
            assert!(heap.is_free(slot + 1));
        }
    }
    assert!(heap.is_full());
    for slot in 0..64 {
        assert!(!heap.is_free(slot));
    }
}

#[test]
fn fixed_first_handles_have_exact_addresses() {
    let mut heap = Heap::new(created(1000, 24)).unwrap();
    assert_eq!(heap.alloc_handle().ptr, 1000);
    assert_eq!(heap.alloc_handle().ptr, 1024);
    assert_eq!(heap.alloc_handle().ptr, 1048);
}

#[test]
fn fixed_is_full_only_after_all_slots() {
    let mut heap = Heap::new(created(0, 1)).unwrap();
    for _ in 0..63 {
        heap.alloc_handle();
    }
    assert!(!heap.is_full());
    assert_eq!(heap.alloc_handle().ptr, 63);
    assert!(heap.is_full());
}

#[test]
fn fixed_reports_failed_creation() {
    let native = NativeHeap { start: 0x8000, handle_size: 16, status: -3 };
    assert_eq!(Heap::new(native).err(), Some(HeapError::Native(-3)));
}

#[test]
fn fixed_refuses_unrepresentable_addresses() {
    let native = created(usize::MAX - 63, 1);
    assert_eq!(Heap::new(native).err(), Some(HeapError::AddressRange));
    let native = created(0, usize::MAX / 32);
    assert_eq!(Heap::new(native).err(), Some(HeapError::AddressRange));
}

#[test]
fn fixed_may_end_at_the_last_address() {
    let mut heap = Heap::new(created(usize::MAX - 64, 1)).unwrap();
    let mut last = 0;
    while !heap.is_full() {
        last = heap.alloc_handle().ptr;
    }
    assert_eq!(last, usize::MAX - 1);
}
