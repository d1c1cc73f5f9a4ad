use stratos::arena::Arena;
use stratos::arena::MAX_APPS;
use stratos::arena::USER_ARENA_SIZE;
use stratos::heap::HEAP_SIZE;
use stratos::heap::KernelHeap;
use stratos::manager::init_memory;

#[test]
fn scenario_app_lifecycle() {
    let mut arena = Arena::init_user_arena();
    assert!(arena.register_app(42, 65536));
    let ptr = arena.app_alloc(42, 4096, 8);
    assert!(ptr.is_some());
    let st = arena.app_stats(42).unwrap();
    assert_eq!(st.used, 4096);
    assert_eq!(st.free, 61440);
    assert_eq!(st.total, 65536);
    assert_eq!(st.alloc_count, 1);
    assert_eq!(st.dealloc_count, 0);
    assert!(arena.app_dealloc(42, ptr.unwrap(), 4096, 8));
    let st2 = arena.app_stats(42).unwrap();
    assert_eq!(st2.used, 0);
    assert_eq!(st2.free, 65536);
    assert_eq!(st2.dealloc_count, 1);
    assert!(arena.unregister_app(42));
    assert!(arena.app_stats(42).is_none());
}

#[test]
fn scenario_overcommit_refused_without_change() {
    let mut arena = Arena::init_user_arena();
    assert!(arena.register_app(1, 1000));
    let before = arena.free_for_new_regions();
    assert!(!arena.register_app(2, before + 1));
    assert_eq!(arena.free_for_new_regions(), before);
}

#[test]
fn scenario_slot_table_exhaustion() {
    let mut arena = Arena::init_user_arena();
    for id in 0..(MAX_APPS as u32) {
        assert!(arena.register_app(id, 1), "registration {} should succeed", id);
    }
    // byte space remains, but every slot is taken
    assert!(arena.free_for_new_regions() > 0);
    assert!(!arena.register_app(MAX_APPS as u32, 1));
    // the failed attempt consumed nothing
    assert!(arena.unregister_app(0));
    assert!(arena.register_app(MAX_APPS as u32, 1));
}

#[test]
fn scenario_kernel_roundtrip_counts() {
    let mut heap = KernelHeap::init_heap();
    let before = heap.heap_stats();
    let p = heap.kalloc(128, 8).expect("kernel alloc");
    assert!(heap.kdealloc(p, 128, 8));
    let after = heap.heap_stats();
    assert_eq!(after.used, before.used);
    assert_eq!(after.free, before.free);
    assert_eq!(after.alloc_count, before.alloc_count + 1);
    assert_eq!(after.dealloc_count, before.dealloc_count + 1);
}

#[test]
fn register_is_idempotent_for_live_id() {
    let mut arena = Arena::init_user_arena();
    assert!(arena.register_app(7, 8192));
    let free_before = arena.free_for_new_regions();
    let base_before = arena.app_alloc(7, 16, 1).unwrap();
    assert!(arena.app_dealloc(7, base_before, 16, 1));
    // re-registering with any quota is a no-op success
    assert!(arena.register_app(7, 999_999));
    assert_eq!(arena.free_for_new_regions(), free_before);
    let st = arena.app_stats(7).unwrap();
    assert_eq!(st.total, 8192);
}

#[test]
fn unregister_frees_slot_and_region_for_reuse() {
    let mut arena = Arena::init_user_arena();
    assert!(arena.register_app(1, 8192));
    // the very first grant is carved at the start of the arena
    let base1 = arena.app_alloc(1, 64, 1).unwrap();
    assert!(arena.unregister_app(1));
    assert!(arena.app_stats(1).is_none());
    // a smaller quota reuses the freed region whole: same base, full size
    assert!(arena.register_app(2, 4096));
    let base2 = arena.app_alloc(2, 64, 1).unwrap();
    assert_eq!(base1, base2);
    let st = arena.app_stats(2).unwrap();
    assert_eq!(st.total, 8192, "the whole freed region is granted");
}

#[test]
fn app_alloc_stays_inside_granted_region() {
    let mut arena = Arena::init_user_arena();
    assert!(arena.register_app(3, 65536));
    // the sole region starts at offset 0
    for _ in 0..10 {
        let p = arena.app_alloc(3, 4000, 8).unwrap();
        assert!(p + 4000 <= 65536, "block [{}..{}] escapes the region", p, p + 4000);
    }
}

#[test]
fn app_dealloc_rejects_foreign_pointers() {
    let mut arena = Arena::init_user_arena();
    assert!(arena.register_app(1, 4096));
    assert!(arena.register_app(2, 4096));
    let p1 = arena.app_alloc(1, 64, 8).unwrap();
    // out of the arena entirely
    assert!(!arena.app_dealloc(1, 2 * USER_ARENA_SIZE, 64, 8));
    // inside app 1's region, presented to app 2
    assert!(!arena.app_dealloc(2, p1, 64, 8));
    // unknown id
    assert!(!arena.app_dealloc(9, p1, 64, 8));
    // the rejections changed nothing: the real owner can still release it
    assert!(arena.app_dealloc(1, p1, 64, 8));
}

#[test]
fn alloc_dealloc_restores_free_count_exactly() {
    let mut arena = Arena::init_user_arena();
    assert!(arena.register_app(5, 32768));
    let free0 = arena.app_stats(5).unwrap().free;
    let p = arena.app_alloc(5, 1234, 2).unwrap();
    assert_eq!(arena.app_stats(5).unwrap().free, free0 - 1234);
    assert!(arena.app_dealloc(5, p, 1234, 2));
    assert_eq!(arena.app_stats(5).unwrap().free, free0);
}

#[test]
fn used_plus_free_is_total_everywhere() {
    let mut m = init_memory(64 * 1024 * 1024);
    let k = m.kernel.heap_stats();
    assert_eq!(k.used + k.free, k.total);
    assert!(m.arena.register_app(1, 10000));
    let _ = m.arena.app_alloc(1, 100, 4);
    let st = m.arena.app_stats(1).unwrap();
    assert_eq!(st.used + st.free, st.total);
    let mo = m.memory_overview(None);
    assert_eq!(mo.kernel_heap.used + mo.kernel_heap.free, mo.kernel_heap.total);
    for entry in mo.apps.iter().flatten() {
        assert_eq!(entry.1.used + entry.1.free, entry.1.total);
    }
}

#[test]
fn kernel_heap_coalesces_freed_neighbours() {
    let mut heap = KernelHeap::init_heap();
    let a = heap.kalloc(100, 1).unwrap();
    let b = heap.kalloc(50, 1).unwrap();
    assert_eq!(a, 0);
    assert_eq!(b, 100);
    assert!(heap.kdealloc(a, 100, 1));
    assert!(heap.kdealloc(b, 50, 1));
    // both blocks merged back with the tail: a spanning allocation fits at 0
    let c = heap.kalloc(150, 1).unwrap();
    assert_eq!(c, 0);
}

#[test]
fn kernel_alloc_respects_alignment() {
    let mut heap = KernelHeap::init_heap();
    let a = heap.kalloc(3, 1).unwrap();
    assert_eq!(a, 0);
    let b = heap.kalloc(8, 8).unwrap();
    assert_eq!(b % 8, 0);
    assert!(b >= 3);
    let c = heap.kalloc(16, 16).unwrap();
    assert_eq!(c % 16, 0);
}

#[test]
fn kernel_alloc_exhaustion_returns_none() {
    let mut heap = KernelHeap::init_heap();
    assert!(heap.kalloc(HEAP_SIZE + 1, 1).is_none());
    let p = heap.kalloc(HEAP_SIZE, 1);
    assert_eq!(p, Some(0));
    assert!(heap.kalloc(1, 1).is_none());
    let st = heap.heap_stats();
    assert_eq!(st.used, HEAP_SIZE);
    assert_eq!(st.free, 0);
    assert_eq!(st.peak_used, HEAP_SIZE);
}

#[test]
fn kernel_dealloc_rejects_bad_blocks() {
    let mut heap = KernelHeap::init_heap();
    let p = heap.kalloc(64, 4).unwrap();
    // out of range
    assert!(!heap.kdealloc(HEAP_SIZE, 8, 4));
    // overlapping free space
    assert!(!heap.kdealloc(p + 32, 64, 4));
    // double free after a real free
    assert!(heap.kdealloc(p, 64, 4));
    assert!(!heap.kdealloc(p, 64, 4));
}

#[test]
fn bump_grants_are_page_aligned() {
    let mut arena = Arena::init_user_arena();
    assert!(arena.register_app(1, 100));
    assert!(arena.register_app(2, 100));
    // the second grant is carved at the next 4096 boundary
    let p2 = arena.app_alloc(2, 10, 1).unwrap();
    assert_eq!(p2, 4096);
}

#[test]
fn free_region_list_survives_many_cycles() {
    let mut arena = Arena::init_user_arena();
    for round in 0..3 {
        for id in 0..(MAX_APPS as u32) {
            assert!(arena.register_app(id, 2048), "round {} id {}", round, id);
        }
        for id in 0..(MAX_APPS as u32) {
            assert!(arena.unregister_app(id));
        }
    }
    // the bump frontier never retracted, yet space is still grantable
    assert!(arena.register_app(99, 2048));
}

#[test]
fn overview_reports_slots_and_display_passthrough() {
    let mut m = init_memory(128 * 1024 * 1024);
    assert!(m.arena.register_app(11, 4096));
    let display = stratos::display::DisplayBufferStats {
        framebuffer_bytes: 100,
        backbuffer_bytes: 100,
        width_px: 10,
        height_px: 10,
        stride_px: 10,
        bytes_per_pixel: 1,
    };
    let mo = m.memory_overview(Some(display));
    assert_eq!(mo.system.total, 128 * 1024 * 1024);
    assert_eq!(mo.system.reserved, HEAP_SIZE);
    assert_eq!(mo.system.free, 128 * 1024 * 1024 - HEAP_SIZE);
    assert_eq!(mo.user_arena_total, USER_ARENA_SIZE);
    assert_eq!(mo.apps.len(), MAX_APPS);
    let live: Vec<_> = mo.apps.iter().flatten().collect();
    assert_eq!(live.len(), 1);
    assert_eq!(live[0].0, 11);
    assert_eq!(live[0].1.total, 4096);
    assert_eq!(mo.display, Some(display));
}

#[test]
fn app_can_reserve_now_tracks_free() {
    let mut arena = Arena::init_user_arena();
    assert!(arena.register_app(8, 4096));
    assert!(arena.app_can_reserve_now(8, 4096));
    assert!(!arena.app_can_reserve_now(8, 4097));
    assert!(!arena.app_can_reserve_now(99, 1));
    let _ = arena.app_alloc(8, 4000, 1).unwrap();
    assert!(!arena.app_can_reserve_now(8, 100));
    assert!(arena.app_can_reserve_now(8, 96));
}

#[test]
fn full_free_list_drops_extra_region() {
    let mut arena = Arena::init_user_arena();
    for id in 0..(MAX_APPS as u32) {
        assert!(arena.register_app(id, 8192));
    }
    for id in 0..(MAX_APPS as u32) {
        assert!(arena.unregister_app(id));
    }
    // all 32 free-region entries are occupied; a further freed region is
    // dropped for good, since the bump frontier never retracts
    assert!(arena.register_app(100, 100_000));
    let before = arena.free_for_new_regions();
    assert!(arena.unregister_app(100));
    assert!(arena.app_stats(100).is_none());
    assert_eq!(
        arena.free_for_new_regions(),
        before,
        "the freed region vanished instead of returning to the list"
    );
}
