//! Bump allocation over a fixed heap: where a request lands, and one lock-free attempt to claim it.
use vstd::prelude::*;

use core::sync::atomic::AtomicUsize;
use core::sync::atomic::Ordering;

verus! {

/// Size of the heap the bump allocator hands out, in bytes (64 KiB).
pub const HEAP_SIZE: usize = 64 * 1024;

/// Bytes to skip from address `addr` to reach the next multiple of `align`.
pub open spec fn align_padding(addr: int, align: int) -> int
    recommends
        align > 0,
{
    (align - addr % align) % align
}

/// Heap offset `o` puts the address at a multiple of `align`.
pub open spec fn offset_aligned(heap_start: int, o: int, align: int) -> bool {
    (heap_start + o) % align == 0
}

/// Heap offset at which a request with alignment `align` starts when the
/// first free offset is `current` and the heap starts at address `heap_start`.
pub open spec fn aligned_offset(heap_start: int, current: int, align: int) -> int {
    current + align_padding(heap_start + current, align)
}

/// Computes where a bump allocation of `size` bytes aligned to `align` lands
/// when the first free heap offset is `current`: `Some((address, next free
/// offset))` when the block fits in the heap, `None` when it does not.
pub fn plan_allocation(heap_start: usize, current: usize, align: usize, size: usize) -> (r: Option<
    (usize, usize),
>)
    requires
        align > 0,
        heap_start + current <= usize::MAX,
        aligned_offset(heap_start as int, current as int, align as int) + size <= usize::MAX,
        aligned_offset(heap_start as int, current as int, align as int) + size <= HEAP_SIZE
            ==> heap_start + aligned_offset(heap_start as int, current as int, align as int)
            <= usize::MAX,
    ensures
        r is Some <==> aligned_offset(heap_start as int, current as int, align as int) + size
            <= HEAP_SIZE,
        r matches Some((addr, next)) ==> addr == heap_start + aligned_offset(
            heap_start as int,
            current as int,
            align as int,
        ) && next == aligned_offset(heap_start as int, current as int, align as int) + size,
        r matches Some((addr, next)) ==> addr % align == 0 && heap_start + current <= addr
            < heap_start + current + align && addr + size == heap_start + next && current <= next
            <= HEAP_SIZE,
        r is None ==> forall|o: int|
            current <= o < current + align && #[trigger] offset_aligned(
                heap_start as int,
                o,
                align as int,
            ) ==> o + size > HEAP_SIZE,
{
    proof {
        lemma_aligned_offset_is_least_aligned(heap_start as int, current as int, align as int);
        if aligned_offset(heap_start as int, current as int, align as int) + size <= HEAP_SIZE {
            lemma_granted_block_in_heap(heap_start as int, current as int, align as int, size as int);
        }
    }
    let current_addr = heap_start + current;
    let align_offset = (align - (current_addr % align)) % align;
    let new_offset = current + align_offset + size;
    if new_offset > HEAP_SIZE {
        return None;
    }
    Some((heap_start + current + align_offset, new_offset))
}

/// The padding is below the alignment and brings the address to a multiple of it.
pub proof fn lemma_padding_aligns(addr: int, align: int)
    requires
        align > 0,
    ensures
        0 <= align_padding(addr, align) < align,
        (addr + align_padding(addr, align)) % align == 0,
{
    let r = addr % align;
    assert(0 <= r < align) by (nonlinear_arith)
        requires
            align > 0,
            r == addr % align,
    ;
    if r == 0 {
        assert(align_padding(addr, align) == 0) by (nonlinear_arith)
            requires
                align > 0,
                r == 0,
                align_padding(addr, align) == (align - r) % align,
        ;
    } else {
        assert(align_padding(addr, align) == align - r) by (nonlinear_arith)
            requires
                align > 0,
                0 < r < align,
                align_padding(addr, align) == (align - r) % align,
        ;
        assert((addr + (align - r)) % align == 0) by (nonlinear_arith)
            requires
                align > 0,
                r == addr % align,
        ;
    }
}

/// Two offsets in one window of `align` consecutive offsets that both
/// bring the address to a multiple of `align` are the same offset.
pub proof fn lemma_aligned_offset_unique_in_window(heap_start: int, current: int, align: int, o: int, p: int)
    requires
        align > 0,
        current <= o < current + align,
        current <= p < current + align,
        (heap_start + o) % align == 0,
        (heap_start + p) % align == 0,
    ensures
        o == p,
{
    let x = heap_start + o;
    let y = heap_start + p;
    assert(x == align * (x / align)) by (nonlinear_arith)
        requires
            align > 0,
            x % align == 0,
    ;
    assert(y == align * (y / align)) by (nonlinear_arith)
        requires
            align > 0,
            y % align == 0,
    ;
    let qx = x / align;
    let qy = y / align;
    assert(qx == qy) by (nonlinear_arith)
        requires
            align > 0,
            x == align * qx,
            y == align * qy,
            x - y < align,
            y - x < align,
    ;
}

/// The start offset of a request is the least offset at or after `current`
/// that brings the address to a multiple of `align`: it lies in
/// `[current, current + align)`, it is aligned, and it is the only aligned
/// offset there.
pub proof fn lemma_aligned_offset_is_least_aligned(heap_start: int, current: int, align: int)
    requires
        align > 0,
    ensures
        current <= aligned_offset(heap_start, current, align) < current + align,
        (heap_start + aligned_offset(heap_start, current, align)) % align == 0,
        forall|o: int|
            current <= o < current + align && #[trigger] offset_aligned(heap_start, o, align) ==> o
                == aligned_offset(heap_start, current, align),
{
    lemma_padding_aligns(heap_start + current, align);
    assert forall|o: int|
        current <= o < current + align && #[trigger] offset_aligned(heap_start, o, align) implies o
        == aligned_offset(heap_start, current, align) by {
        lemma_aligned_offset_unique_in_window(
            heap_start,
            current,
            align,
            o,
            aligned_offset(heap_start, current, align),
        );
    }
}

/// A granted block is aligned, starts at or after the first free offset
/// (so it overlaps nothing handed out before), ends inside the heap, and
/// the next free offset moves forward to its end.
pub proof fn lemma_granted_block_in_heap(heap_start: int, current: int, align: int, size: int)
    requires
        align > 0,
        current >= 0,
        size >= 0,
        aligned_offset(heap_start, current, align) + size <= HEAP_SIZE,
    ensures
        (heap_start + aligned_offset(heap_start, current, align)) % align == 0,
        current <= aligned_offset(heap_start, current, align) < current + align,
        heap_start + current <= heap_start + aligned_offset(heap_start, current, align),
        heap_start + aligned_offset(heap_start, current, align) + size <= heap_start + HEAP_SIZE,
        current <= aligned_offset(heap_start, current, align) + size <= HEAP_SIZE,
{
    lemma_padding_aligns(heap_start + current, align);
}

/// Two successive grants never overlap: the second starts at or after the
/// end of the first.
pub proof fn lemma_successive_grants_disjoint(
    heap_start: int,
    current: int,
    align1: int,
    size1: int,
    align2: int,
)
    requires
        align2 > 0,
    ensures
        heap_start + aligned_offset(heap_start, current, align1) + size1 <= heap_start
            + aligned_offset(heap_start, aligned_offset(heap_start, current, align1) + size1, align2),
{
}

/// Outcome of one attempt to claim heap space; each outcome carries the
/// first free offset that the attempt read.
#[derive(Debug, Clone, Copy, PartialEq, Eq, Structural)]
pub enum AllocAttempt {
    /// The block at `addr` was claimed and `published` became the first free offset.
    Granted { addr: usize, read: usize, published: usize },
    /// The heap has no room for the block at the offset read.
    Exhausted { read: usize },
    /// The block fitted at the offset read, but another claim raced this one;
    /// the attempt may be repeated.
    Contended { read: usize },
}

/// Stores `new` in `next` if it holds `current`, with
/// `AtomicUsize::compare_exchange_weak` (sequentially consistent on success,
/// relaxed on failure). On success it returns the previous value, which
/// equals `current`, together with the value it stored, `new`; a failure,
/// which may be spurious, returns the value found.
#[verifier::external_body]
fn compare_exchange_next(next: &AtomicUsize, current: usize, new: usize) -> (r: Result<
    (usize, usize),
    usize,
>)
    ensures
        r matches Ok((previous, stored)) ==> previous == current && stored == new,
{
    match next.compare_exchange_weak(current, new, Ordering::SeqCst, Ordering::Relaxed) {
        Ok(previous) => Ok((previous, new)),
        Err(found) => Err(found),
    }
}

/// Simple bump allocator over a heap of `HEAP_SIZE` bytes: it holds the first
/// free heap offset and never reclaims individual allocations.
pub struct BumpAllocator {
    next: AtomicUsize,
}

impl BumpAllocator {
    /// Creates an allocator whose whole heap is free.
    pub fn new() -> Self {
        BumpAllocator { next: AtomicUsize::new(0) }
    }

    /// Reads the first free heap offset.
    fn read_next(&self) -> usize {
        self.next.load(Ordering::Relaxed)
    }

    /// Makes one attempt to claim `size` bytes aligned to `align` from the
    /// heap starting at address `heap_start`: reads the first free offset,
    /// plans the block with `plan_allocation` and publishes the planned next
    /// offset with one weak compare-and-swap.
    ///
    /// The outcome is decided by the offset read: where the block does not
    /// fit there, the attempt is `Exhausted`; where it fits, it is `Granted`
    /// with the planned block and next offset when the compare-and-swap
    /// succeeds, and `Contended` when it fails (another claim may have
    /// raced it, or the weak exchange failed spuriously). A block larger than
    /// the heap is always refused. An offset read beyond the heap, which this
    /// allocator never stores, counts as exhausted.
    pub fn try_alloc(&self, heap_start: usize, align: usize, size: usize) -> (r: AllocAttempt)
        requires
            align > 0,
            size + align <= isize::MAX + 1,
            heap_start + HEAP_SIZE <= usize::MAX,
        ensures
            r matches AllocAttempt::Granted { addr, read, published } ==> read <= HEAP_SIZE
                && aligned_offset(heap_start as int, read as int, align as int) + size <= HEAP_SIZE
                && addr == heap_start + aligned_offset(heap_start as int, read as int, align as int)
                && published == aligned_offset(heap_start as int, read as int, align as int) + size,
            r matches AllocAttempt::Granted { addr, read, published } ==> addr % align == 0
                && heap_start + read <= addr && addr + size == heap_start + published && read
                <= published <= HEAP_SIZE,
            r matches AllocAttempt::Exhausted { read } ==> read > HEAP_SIZE || aligned_offset(
                heap_start as int,
                read as int,
                align as int,
            ) + size > HEAP_SIZE,
            r matches AllocAttempt::Contended { read } ==> read <= HEAP_SIZE && aligned_offset(
                heap_start as int,
                read as int,
                align as int,
            ) + size <= HEAP_SIZE,
            size > HEAP_SIZE ==> r is Exhausted,
    {
        let current = self.read_next();
        if current > HEAP_SIZE {
            return AllocAttempt::Exhausted { read: current };
        }
        proof {
            lemma_padding_aligns(heap_start + current, align as int);
        }
        match plan_allocation(heap_start, current, align, size) {
            None => AllocAttempt::Exhausted { read: current },
            Some((addr, new_offset)) => {
                match compare_exchange_next(&self.next, current, new_offset) {
                    Ok((_, published)) => AllocAttempt::Granted { addr, read: current, published },
                    Err(_) => AllocAttempt::Contended { read: current },
                }
            },
        }
    }
}

} // verus!
