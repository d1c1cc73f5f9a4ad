//! The global kernel heap: one fixed-size first-fit allocator instrumented
//! with usage counters.
//!
//! `used` and `free` are recomputed from the live free list on every query,
//! never drift-tracked; `peak_used` is monotonically non-decreasing, and the
//! alloc/dealloc counters change only on accepted operations.

use vstd::prelude::*;

use crate::freelist::FreeSpace;
use crate::freelist::spec_pow2;

verus! {

/// Size in bytes of the kernel heap.
pub const HEAP_SIZE: usize = 256 * 1024;

/// Snapshot of the kernel heap's accounting.
#[derive(Clone, Copy, Debug, PartialEq, Eq, Structural)]
pub struct HeapStats {
    pub used: usize,
    pub free: usize,
    pub total: usize,
    pub peak_used: usize,
    pub alloc_count: usize,
    pub dealloc_count: usize,
}

/// A counter bumped on every accepted operation; it sticks at the top of its
/// range instead of wrapping.
pub open spec fn count_inc(c: int) -> int {
    if c < usize::MAX {
        c + 1
    } else {
        c
    }
}

/// The kernel heap allocator with its counters.
pub struct KernelHeap {
    space: FreeSpace,
    peak_used: usize,
    alloc_count: usize,
    dealloc_count: usize,
}

impl KernelHeap {
    /// Counters are sound and the free list covers exactly `HEAP_SIZE` bytes.
    pub closed spec fn wf(&self) -> bool {
        &&& self.space.wf()
        &&& self.space.size() == HEAP_SIZE
        &&& self.space.size() - self.space.free() <= self.peak_used <= self.space.size()
    }

    /// Bytes currently handed out.
    pub closed spec fn used(&self) -> int {
        self.space.size() - self.space.free()
    }

    /// Bytes currently free.
    pub closed spec fn free(&self) -> int {
        self.space.free()
    }

    pub closed spec fn peak(&self) -> int {
        self.peak_used as int
    }

    pub closed spec fn allocs(&self) -> int {
        self.alloc_count as int
    }

    pub closed spec fn deallocs(&self) -> int {
        self.dealloc_count as int
    }

    /// Whether a request of `size` bytes at alignment `align` has a first-fit
    /// home right now.
    pub closed spec fn fits(&self, size: int, align: int) -> bool {
        self.space.fits(size, align)
    }

    /// Whether the block `[off, off + size)` would be accepted back.
    pub closed spec fn can_release(&self, off: int, size: int) -> bool {
        self.space.can_release(off, size)
    }

    /// One-time setup of the kernel heap allocator.
    pub fn init_heap() -> (h: KernelHeap)
        ensures
            h.wf(),
            h.used() == 0,
            h.free() == HEAP_SIZE,
            h.peak() == 0,
            h.allocs() == 0,
            h.deallocs() == 0,
    {
        let space = FreeSpace::new(HEAP_SIZE);
        KernelHeap { space, peak_used: 0, alloc_count: 0, dealloc_count: 0 }
    }

    /// Allocate `size` bytes aligned to `align` (a power of two); returns the
    /// offset of the block, or `None` when no contiguous space is left, in
    /// which case nothing changes — no retry, no compaction.
    pub fn kalloc(&mut self, size: usize, align: usize) -> (r: Option<usize>)
        requires
            old(self).wf(),
            spec_pow2(align as int),
        ensures
            final(self).wf(),
            r is Some <==> old(self).fits(size as int, align as int),
            r is None ==> *final(self) == *old(self),
            r matches Some(off) ==> {
                &&& off % align == 0
                &&& off + size <= HEAP_SIZE
                &&& final(self).free() == old(self).free() - size
                &&& final(self).used() == old(self).used() + size
                &&& final(self).can_release(off as int, size as int)
                &&& final(self).allocs() == count_inc(old(self).allocs())
                &&& final(self).deallocs() == old(self).deallocs()
                &&& final(self).peak() == if final(self).used() > old(self).peak() {
                    final(self).used()
                } else {
                    old(self).peak()
                }
            },
    {
        proof {
            crate::freelist::lemma_pow2_pos(align as int);
        }
        let r = self.space.allocate(size, align);
        match r {
            Some(off) => {
                self.alloc_count = self.alloc_count.saturating_add(1);
                proof {
                    self.space.lemma_free_in_range();
                }
                let free_now = self.space.free_bytes();
                let used_now = HEAP_SIZE - free_now;
                if used_now > self.peak_used {
                    self.peak_used = used_now;
                }
                Some(off)
            },
            None => None,
        }
    }

    /// Release a block previously returned by `kalloc`.  The offset and size
    /// must match the allocation; a block that is out of range or overlaps
    /// free space is refused and nothing changes.
    #[allow(unused_variables)]
    pub fn kdealloc(&mut self, off: usize, size: usize, align: usize) -> (r: bool)
        requires
            old(self).wf(),
            spec_pow2(align as int),
        ensures
            final(self).wf(),
            r == old(self).can_release(off as int, size as int),
            !r ==> *final(self) == *old(self),
            r ==> {
                &&& final(self).free() == old(self).free() + size
                &&& final(self).used() == old(self).used() - size
                &&& final(self).deallocs() == count_inc(old(self).deallocs())
                &&& final(self).allocs() == old(self).allocs()
                &&& final(self).peak() == old(self).peak()
            },
    {
        let ok = self.space.dealloc(off, size);
        if ok {
            self.dealloc_count = self.dealloc_count.saturating_add(1);
        }
        ok
    }

    /// Current accounting; `used + free == total` always holds, with `used`
    /// and `free` recomputed from the live free list.
    pub fn heap_stats(&self) -> (s: HeapStats)
        requires
            self.wf(),
        ensures
            s.total == HEAP_SIZE,
            s.used == self.used(),
            s.free == self.free(),
            s.used + s.free == s.total,
            s.peak_used == self.peak(),
            s.alloc_count == self.allocs(),
            s.dealloc_count == self.deallocs(),
    {
        proof {
            self.space.lemma_free_in_range();
        }
        let free = self.space.free_bytes();
        let used = HEAP_SIZE - free;
        HeapStats {
            used,
            free,
            total: HEAP_SIZE,
            peak_used: self.peak_used,
            alloc_count: self.alloc_count,
            dealloc_count: self.dealloc_count,
        }
    }
}

} // verus!
