use gpu_pools::descriptor::{CpuDescriptor, HeapError, NativeHeap};
use gpu_pools::linear::HeapLinear;

fn created(start: usize, handle_size: usize) -> NativeHeap {
    NativeHeap { start, handle_size, status: 0 }
}

#[test]
fn linear_serves_exactly_its_capacity() {
    let mut heap = HeapLinear::new(created(0x1000, 32), 4).unwrap();
    let mut served = 0;
    while !heap.is_full() {
        heap.alloc_handle();
        served += 1;
    }
    assert_eq!(served, 4);
    assert!(heap.is_full());
}

#[test]
fn linear_addresses_are_stride_spaced() {
    let mut heap = HeapLinear::new(created(0x1000, 32), 4).unwrap();
    assert_eq!(heap.alloc_handle(), CpuDescriptor { ptr: 0x1000 });
    assert_eq!(heap.alloc_handle(), CpuDescriptor { ptr: 0x1020 });
    assert_eq!(heap.alloc_handle(), CpuDescriptor { ptr: 0x1040 });
    assert!(!heap.is_full());
    assert_eq!(heap.alloc_handle(), CpuDescriptor { ptr: 0x1060 });
    assert!(heap.is_full());
}

#[test]
fn linear_addresses_increase_strictly() {
    let mut heap = HeapLinear::new(created(7, 3), 100).unwrap();
    let mut last = heap.alloc_handle().ptr;
    assert_eq!(last, 7);
    while !heap.is_full() {
        let next = heap.alloc_handle().ptr;
        assert_eq!(next, last + 3);
        assert!(next > last);
        last = next;
    }
    assert_eq!(last, 7 + 3 * 99);
}

#[test]
fn linear_clear_reproduces_the_first_address() {
    let mut heap = HeapLinear::new(created(0x4000, 8), 3).unwrap();
    let first: Vec<usize> = (0..3).map(|_| heap.alloc_handle().ptr).collect();
    assert!(heap.is_full());
    heap.clear();
    assert!(!heap.is_full());
    let again: Vec<usize> = (0..3).map(|_| heap.alloc_handle().ptr).collect();
    assert_eq!(first, vec![0x4000, 0x4008, 0x4010]);
    assert_eq!(again, first);
    assert!(heap.is_full());
}

#[test]
fn linear_clear_in_mid_period_restarts() {
    let mut heap = HeapLinear::new(created(100, 10), 5).unwrap();
    heap.alloc_handle();
    heap.alloc_handle();
    heap.clear();
    assert_eq!(heap.alloc_handle().ptr, 100);
    assert_eq!(heap.alloc_handle().ptr, 110);
    assert_eq!(heap.alloc_handle().ptr, 120);
}

#[test]
fn linear_without_slots_is_full_at_once() {
    let mut heap = HeapLinear::new(created(0x1000, 32), 0).unwrap();
    assert!(heap.is_full());
    heap.clear();
    assert!(heap.is_full());
}

#[test]
fn linear_with_zero_stride_repeats_the_address() {
    let mut heap = HeapLinear::new(created(64, 0), 2).unwrap();
    assert_eq!(heap.alloc_handle().ptr, 64);
    assert_eq!(heap.alloc_handle().ptr, 64);
    assert!(heap.is_full());
}

#[test]
fn linear_reports_failed_creation() {
    let native = NativeHeap { start: 0, handle_size: 32, status: -2147024882 };
    match HeapLinear::new(native, 16) {
        Err(e) => assert_eq!(e, HeapError::Native(-2147024882)),
        Ok(_) => panic!("a heap that was not created was accepted"),
    }
    let native = NativeHeap { start: 0x1000, handle_size: 32, status: -1 };
    assert_eq!(HeapLinear::new(native, 0).err(), Some(HeapError::Native(-1)));
}

#[test]
fn linear_accepts_positive_status() {
    let native = NativeHeap { start: 0x1000, handle_size: 32, status: 1 };
    let mut heap = HeapLinear::new(native, 1).unwrap();
    assert_eq!(heap.alloc_handle().ptr, 0x1000);
}

#[test]
fn linear_refuses_unrepresentable_addresses() {
    let native = created(usize::MAX - 10, 8);
    assert_eq!(HeapLinear::new(native, 2).err(), Some(HeapError::AddressRange));
    let native = created(0, usize::MAX);
    assert_eq!(HeapLinear::new(native, 2).err(), Some(HeapError::AddressRange));
    let native = created(1, usize::MAX);
    assert_eq!(HeapLinear::new(native, 1).err(), Some(HeapError::AddressRange));
}

#[test]
fn linear_may_end_at_the_last_address() {
    let mut heap = HeapLinear::new(created(usize::MAX - 16, 8), 2).unwrap();
    assert_eq!(heap.alloc_handle().ptr, usize::MAX - 16);
    assert_eq!(heap.alloc_handle().ptr, usize::MAX - 8);
    assert!(heap.is_full());
}

#[test]
fn failed_status_comes_before_the_address_check() {
    let native = NativeHeap { start: usize::MAX, handle_size: usize::MAX, status: -7 };
    assert_eq!(native.validate(64), Err(HeapError::Native(-7)));
    let native = NativeHeap { start: usize::MAX, handle_size: 1, status: 0 };
    assert_eq!(native.validate(1), Err(HeapError::AddressRange));
    assert_eq!(native.validate(0), Ok(()));
}
