use wardenkernel::allocator::{plan_allocation, AllocAttempt, BumpAllocator, HEAP_SIZE};

fn claim(a: &BumpAllocator, heap_start: usize, align: usize, size: usize) -> AllocAttempt {
    for _ in 0..1000 {
        let r = a.try_alloc(heap_start, align, size);
        if !matches!(r, AllocAttempt::Contended { .. }) {
            return r;
        }
    }
    panic!("compare-and-swap kept failing without contention");
}

#[test]
fn plan_aligns_up() {
    assert_eq!(plan_allocation(0x1003, 0, 4, 10), Some((0x1004, 11)));
    assert_eq!(plan_allocation(0x1000, 5, 8, 8), Some((0x1008, 16)));
    assert_eq!(plan_allocation(0x1000, 16, 8, 8), Some((0x1010, 24)));
}

#[test]
fn plan_refuses_past_heap_end() {
    assert_eq!(plan_allocation(0x1000, 0, 1, HEAP_SIZE), Some((0x1000, HEAP_SIZE)));
    assert_eq!(plan_allocation(0x1000, 0, 1, HEAP_SIZE + 1), None);
    assert_eq!(plan_allocation(0x1000, HEAP_SIZE, 1, 0), Some((0x1000 + HEAP_SIZE, HEAP_SIZE)));
    assert_eq!(plan_allocation(0x1000, HEAP_SIZE - 4, 8, 4), None);
}

#[test]
fn successive_allocations_do_not_overlap() {
    let a = BumpAllocator::new();
    let heap = 0x10_0000usize;
    assert_eq!(
        claim(&a, heap, 8, 13),
        AllocAttempt::Granted { addr: heap, read: 0, published: 13 }
    );
    assert_eq!(
        claim(&a, heap, 16, 4),
        AllocAttempt::Granted { addr: heap + 16, read: 13, published: 20 }
    );
    assert_eq!(
        claim(&a, heap, 1, 1),
        AllocAttempt::Granted { addr: heap + 20, read: 20, published: 21 }
    );
}

#[test]
fn heap_exhaustion() {
    let a = BumpAllocator::new();
    let heap = 0x20_0000usize;
    assert_eq!(claim(&a, heap, 1, HEAP_SIZE + 1), AllocAttempt::Exhausted { read: 0 });
    assert_eq!(
        claim(&a, heap, 1, HEAP_SIZE - 1),
        AllocAttempt::Granted { addr: heap, read: 0, published: HEAP_SIZE - 1 }
    );
    assert_eq!(claim(&a, heap, 2, 1), AllocAttempt::Exhausted { read: HEAP_SIZE - 1 });
    assert_eq!(
        claim(&a, heap, 1, 1),
        AllocAttempt::Granted { addr: heap + HEAP_SIZE - 1, read: HEAP_SIZE - 1, published: HEAP_SIZE }
    );
    assert_eq!(claim(&a, heap, 1, 1), AllocAttempt::Exhausted { read: HEAP_SIZE });
    assert_eq!(
        claim(&a, heap, 1, 0),
        AllocAttempt::Granted { addr: heap + HEAP_SIZE, read: HEAP_SIZE, published: HEAP_SIZE }
    );
}
