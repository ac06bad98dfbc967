use gpu_pools::descriptor::{HeapError, NativeHeap};
use gpu_pools::pool::DescriptorCpuPool;

const STRIDE: usize = 32;

fn base_of(heap: usize) -> usize {
    0x10_0000 * (heap + 1)
}

/// Allocates one handle, creating a heap first whenever the pool asks for
/// one, and returns the address.
fn allocate(pool: &mut DescriptorCpuPool) -> usize {
    if pool.needs_heap() {
        let native =
            NativeHeap { start: base_of(pool.heap_count()), handle_size: STRIDE, status: 0 };
        assert_eq!(pool.add_heap(native), Ok(pool.heap_count() - 1));
    }
    pool.alloc_handle().unwrap().ptr
}

fn occupied_slots(pool: &DescriptorCpuPool, heap: usize) -> usize {
    let heap = pool.heap(heap).unwrap();
    (0..64).filter(|slot| !heap.is_free(*slot)).count()
}

#[test]
fn pool_starts_without_heaps() {
    let mut pool = DescriptorCpuPool::new();
    assert_eq!(pool.heap_count(), 0);
    assert!(pool.needs_heap());
    assert!(pool.heap(0).is_none());
    assert!(!pool.has_spare(0));
    assert_eq!(pool.alloc_handle(), None);
    assert_eq!(pool.heap_count(), 0);
}

#[test]
fn pool_creates_heaps_lazily() {
    let mut pool = DescriptorCpuPool::new();
    assert_eq!(allocate(&mut pool), base_of(0));
    assert_eq!(pool.heap_count(), 1);
    assert!(!pool.needs_heap());
    assert!(pool.has_spare(0));
    for slot in 1..64 {
        assert_eq!(allocate(&mut pool), base_of(0) + STRIDE * slot);
        assert_eq!(pool.heap_count(), 1);
    }
    assert!(pool.needs_heap());
    assert!(!pool.has_spare(0));
    assert!(pool.heap(0).unwrap().is_full());
    assert_eq!(pool.alloc_handle(), None);
    assert_eq!(allocate(&mut pool), base_of(1));
    assert_eq!(pool.heap_count(), 2);
    assert!(pool.has_spare(1));
    assert!(!pool.has_spare(0));
}

#[test]
fn pool_holds_one_heap_more_than_it_filled() {
    for k in 0..4 {
        let mut pool = DescriptorCpuPool::new();
        for _ in 0..64 * k + 1 {
            allocate(&mut pool);
        }
        assert_eq!(pool.heap_count(), k + 1);
        assert_eq!(occupied_slots(&pool, k), 1);
        for heap in 0..k {
            assert_eq!(occupied_slots(&pool, heap), 64);
            assert!(!pool.has_spare(heap));
        }
        assert!(pool.has_spare(k));
    }
}

#[test]
fn pool_with_exactly_full_heaps_has_no_spare() {
    let mut pool = DescriptorCpuPool::new();
    for _ in 0..128 {
        allocate(&mut pool);
    }
    assert_eq!(pool.heap_count(), 2);
    assert!(pool.needs_heap());
    assert_eq!(occupied_slots(&pool, 0), 64);
    assert_eq!(occupied_slots(&pool, 1), 64);
}

#[test]
fn pool_never_gives_an_address_twice() {
    let mut pool = DescriptorCpuPool::new();
    let mut seen = std::collections::HashSet::new();
    for _ in 0..200 {
        assert!(seen.insert(allocate(&mut pool)));
    }
    assert_eq!(pool.heap_count(), 4);
}

#[test]
fn pool_refuses_a_heap_it_does_not_need() {
    let mut pool = DescriptorCpuPool::new();
    allocate(&mut pool);
    let native = NativeHeap { start: base_of(1), handle_size: STRIDE, status: 0 };
    assert_eq!(pool.add_heap(native), Err(HeapError::NotNeeded));
    assert_eq!(pool.heap_count(), 1);
    assert_eq!(allocate(&mut pool), base_of(0) + STRIDE);
}

#[test]
fn pool_passes_on_failed_creation() {
    let mut pool = DescriptorCpuPool::new();
    let native = NativeHeap { start: base_of(0), handle_size: STRIDE, status: -9 };
    assert_eq!(pool.add_heap(native), Err(HeapError::Native(-9)));
    assert_eq!(pool.heap_count(), 0);
    assert!(pool.needs_heap());
    assert_eq!(pool.alloc_handle(), None);
}

#[test]
fn pool_refuses_a_heap_beyond_the_address_space() {
    let mut pool = DescriptorCpuPool::new();
    let native = NativeHeap { start: usize::MAX - 100, handle_size: STRIDE, status: 0 };
    assert_eq!(pool.add_heap(native), Err(HeapError::AddressRange));
    assert_eq!(pool.heap_count(), 0);
    let native = NativeHeap { start: base_of(0), handle_size: STRIDE, status: 0 };
    assert_eq!(pool.add_heap(native), Ok(0));
    assert_eq!(pool.alloc_handle().map(|handle| handle.ptr), Some(base_of(0)));
}

#[test]
fn pool_a_needed_heap_with_failed_status_reports_the_status() {
    let mut pool = DescriptorCpuPool::new();
    for _ in 0..64 {
        allocate(&mut pool);
    }
    let native = NativeHeap { start: usize::MAX, handle_size: STRIDE, status: -1 };
    assert_eq!(pool.add_heap(native), Err(HeapError::Native(-1)));
    assert_eq!(pool.heap_count(), 1);
}
