//! The memory subsystem's front door: one explicitly constructed manager
//! owning the kernel heap and the application arena, created once at boot
//! and handed to every caller (typically behind one lock).
//!
//! `memory_overview` aggregates system, kernel-heap, arena and per-app
//! statistics into one immutable snapshot for diagnostics; it mutates
//! nothing it tracks.

use vstd::prelude::*;

use crate::arena::Arena;
use crate::arena::AppHeapStats;
use crate::arena::AppId;
use crate::arena::MAX_APPS;
use crate::display::DisplayBufferStats;
use crate::heap::HEAP_SIZE;
use crate::heap::HeapStats;
use crate::heap::KernelHeap;

verus! {

/// Boot-derived memory totals; purely derived, never updated.
#[derive(Clone, Copy, Debug, PartialEq, Eq, Structural)]
pub struct SystemStats {
    pub reserved: usize,
    pub free: usize,
    pub total: usize,
}

/// A read-only snapshot of every accounting the subsystem keeps.
pub struct MemoryOverview {
    pub system: SystemStats,
    pub kernel_heap: HeapStats,
    pub user_arena_total: usize,
    pub user_arena_free_for_new_regions: usize,
    pub apps: Vec<Option<(AppId, AppHeapStats)>>,
    pub display: Option<DisplayBufferStats>,
}

/// The process-lifetime memory manager: kernel heap plus application arena.
pub struct MemoryManager {
    pub total_ram: usize,
    pub kernel: KernelHeap,
    pub arena: Arena,
}

/// One-time boot setup from the boot-reported total of usable memory;
/// must precede any allocation.
pub fn init_memory(total_usable_bytes: usize) -> (m: MemoryManager)
    ensures
        m.wf(),
        m.total_ram == total_usable_bytes,
        m.kernel.used() == 0 && m.kernel.free() == HEAP_SIZE,
        m.kernel.allocs() == 0 && m.kernel.deallocs() == 0 && m.kernel.peak() == 0,
        m.arena.arena_size() == crate::arena::USER_ARENA_SIZE,
        m.arena.bump() == 0,
        m.arena.regions().len() == 0,
        forall|id: AppId| !m.arena.is_registered(id),
{
    MemoryManager {
        total_ram: total_usable_bytes,
        kernel: KernelHeap::init_heap(),
        arena: Arena::init_user_arena(),
    }
}

impl MemoryManager {
    pub open spec fn wf(&self) -> bool {
        self.kernel.wf() && self.arena.wf()
    }

    /// Boot totals: `reserved` is the fixed kernel-heap size (the arena is
    /// meant for applications and not counted), `free` the rest.
    pub fn system_stats(&self) -> (r: SystemStats)
        ensures
            r.reserved == HEAP_SIZE,
            r.total == self.total_ram,
            r.free == (if self.total_ram >= HEAP_SIZE {
                self.total_ram - HEAP_SIZE
            } else {
                0
            }),
    {
        let total = self.total_ram;
        let reserved = HEAP_SIZE;
        let free = total.saturating_sub(reserved);
        SystemStats { reserved, free, total }
    }

    /// Snapshot everything: system totals, kernel heap, arena totals and one
    /// entry per slot, plus the display statistics supplied by the
    /// framebuffer owner, passed through unmodified.
    pub fn memory_overview(&self, display: Option<DisplayBufferStats>) -> (r: MemoryOverview)
        requires
            self.wf(),
        ensures
            r.system.reserved == HEAP_SIZE,
            r.system.total == self.total_ram,
            r.kernel_heap.used == self.kernel.used(),
            r.kernel_heap.free == self.kernel.free(),
            r.kernel_heap.total == HEAP_SIZE,
            r.kernel_heap.used + r.kernel_heap.free == r.kernel_heap.total,
            r.user_arena_total == self.arena.arena_size(),
            r.user_arena_free_for_new_regions == self.arena.free_for_new(),
            r.apps@.len() == MAX_APPS,
            forall|i: int|
                0 <= i < MAX_APPS ==> ({
                    let s = self.arena.slot_table()[i];
                    if s.initialized {
                        (#[trigger] r.apps@[i]) is Some && ({
                            let p = r.apps@[i].unwrap();
                            &&& Some(p.0) == s.id
                            &&& p.1.total == s.size
                            &&& p.1.free == s.heap.free()
                            &&& p.1.used == s.size - s.heap.free()
                            &&& p.1.used + p.1.free == p.1.total
                            &&& p.1.peak_used == s.peak_used
                            &&& p.1.alloc_count == s.alloc_count
                            &&& p.1.dealloc_count == s.dealloc_count
                        })
                    } else {
                        r.apps@[i] is None
                    }
                }),
            r.display == display,
    {
        let kernel_heap = self.kernel.heap_stats();
        let system = self.system_stats();
        let mut apps: Vec<Option<(AppId, AppHeapStats)>> = Vec::new();
        let mut i: usize = 0;
        while i < MAX_APPS
            invariant
                i <= MAX_APPS,
                self.wf(),
                apps@.len() == i,
                forall|k: int|
                    0 <= k < i ==> ({
                        let s = self.arena.slot_table()[k];
                        if s.initialized {
                            (#[trigger] apps@[k]) is Some && ({
                                let p = apps@[k].unwrap();
                                &&& Some(p.0) == s.id
                                &&& p.1.total == s.size
                                &&& p.1.free == s.heap.free()
                                &&& p.1.used == s.size - s.heap.free()
                                &&& p.1.used + p.1.free == p.1.total
                                &&& p.1.peak_used == s.peak_used
                                &&& p.1.alloc_count == s.alloc_count
                                &&& p.1.dealloc_count == s.dealloc_count
                            })
                        } else {
                            apps@[k] is None
                        }
                    }),
            decreases MAX_APPS - i,
        {
            apps.push(self.arena.slot_overview(i));
            i = i + 1;
        }
        let user_arena_total = self.arena.arena_size_bytes();
        let user_arena_free_for_new_regions = self.arena.free_for_new_regions();
        MemoryOverview {
            system,
            kernel_heap,
            user_arena_total,
            user_arena_free_for_new_regions,
            apps,
            display,
        }
    }
}

} // verus!
