//! The application arena: one fixed byte range subdivided into leased
//! regions by a hybrid bump-pointer / reusable-free-region strategy, with a
//! bounded table of per-application slots.
//!
//! Each registered application gets an exclusive region and a private
//! first-fit allocator scoped to it.  A region freed by `unregister_app`
//! goes back on the free-region list (capped at `MAX_APPS` entries) and may
//! be handed whole to a later registration; free regions are never split
//! and never coalesced.

use vstd::prelude::*;

use crate::freelist::FreeSpace;
use crate::freelist::align_pad;
use crate::freelist::span_sum;
use crate::freelist::spec_pow2;
use crate::freelist::lemma_span_sum_nonneg;
use crate::freelist::lemma_span_sum_around;
use crate::freelist::lemma_span_sum_ge_elem;
use crate::freelist::lemma_span_sum_push;
use crate::freelist::lemma_span_sum_update;
use crate::freelist::lemma_span_sum_drop_last;
use crate::scan::find_first;
use crate::scan::lemma_find_first_props;
use crate::scan::lemma_find_first_at;

verus! {

/// Caller-supplied identifier keying a registered application.
pub type AppId = u32;

/// Size in bytes of the application arena.
pub const USER_ARENA_SIZE: usize = 1024 * 1024;

/// Bump-pointer grants start on this boundary.
pub const USER_ARENA_ALIGN: usize = 4096;

/// Bound on concurrently registered applications, and on stored free regions.
pub const MAX_APPS: usize = 32;

/// Snapshot of one application heap's accounting.
#[derive(Clone, Copy, Debug, PartialEq, Eq, Structural)]
pub struct AppHeapStats {
    pub used: usize,
    pub free: usize,
    pub total: usize,
    pub peak_used: usize,
    pub alloc_count: usize,
    pub dealloc_count: usize,
}

/// One entry of the arena's slot table.
pub struct AppSlot {
    pub id: Option<AppId>,
    pub offset: usize,
    pub size: usize,
    pub heap: FreeSpace,
    pub peak_used: usize,
    pub alloc_count: usize,
    pub dealloc_count: usize,
    pub initialized: bool,
}

/// Slot predicate: live and bound to `id`.
pub open spec fn is_live_id(id: AppId) -> spec_fn(AppSlot) -> bool {
    |s: AppSlot| s.initialized && s.id == Some(id)
}

/// Slot predicate: available for a new registration.
pub open spec fn is_free_slot() -> spec_fn(AppSlot) -> bool {
    |s: AppSlot| !s.initialized
}

/// Region predicate: large enough for `quota` bytes.
pub open spec fn region_fits(quota: int) -> spec_fn((usize, usize)) -> bool {
    |r: (usize, usize)| r.1 >= quota
}

/// A slot that holds no application; everything zeroed.
pub open spec fn slot_cleared(s: AppSlot) -> bool {
    &&& !s.initialized
    &&& s.id is None
    &&& s.offset == 0
    &&& s.size == 0
    &&& s.heap.wf()
    &&& s.heap.size() == 0
    &&& s.peak_used == 0
    &&& s.alloc_count == 0
    &&& s.dealloc_count == 0
}

/// A slot exactly as `register_app` leaves it: the whole region free,
/// counters zeroed.
pub open spec fn slot_fresh(s: AppSlot, id: AppId, off: int, size: int) -> bool {
    &&& s.initialized
    &&& s.id == Some(id)
    &&& s.offset == off
    &&& s.size == size
    &&& s.heap.wf()
    &&& s.heap.size() == size
    &&& s.heap.free() == size
    &&& s.peak_used == 0
    &&& s.alloc_count == 0
    &&& s.dealloc_count == 0
}

/// Internal consistency of one slot against the bump frontier.
pub open spec fn slot_ok(s: AppSlot, bump: int) -> bool {
    if s.initialized {
        &&& s.id is Some
        &&& s.offset + s.size <= bump
        &&& s.heap.wf()
        &&& s.heap.size() == s.size
        &&& s.size - s.heap.free() <= s.peak_used <= s.size
    } else {
        slot_cleared(s)
    }
}

/// Two half-open byte ranges `(start, len)` that do not overlap.
pub open spec fn ranges_disjoint(a: (int, int), b: (int, int)) -> bool {
    a.0 + a.1 <= b.0 || b.0 + b.1 <= a.0
}

pub open spec fn slot_range(s: AppSlot) -> (int, int) {
    (s.offset as int, s.size as int)
}

pub open spec fn region_range(r: (usize, usize)) -> (int, int) {
    (r.0 as int, r.1 as int)
}

/// Bytes covered by live slots.
pub open spec fn live_bytes(s: Seq<AppSlot>) -> int
    decreases s.len(),
{
    if s.len() == 0 {
        0
    } else {
        (if s[0].initialized {
            s[0].size as int
        } else {
            0
        }) + live_bytes(s.drop_first())
    }
}

pub proof fn lemma_live_bytes_around(s: Seq<AppSlot>, i: int)
    requires
        0 <= i < s.len(),
    ensures
        live_bytes(s) == live_bytes(s.take(i)) + (if s[i].initialized {
            s[i].size as int
        } else {
            0
        }) + live_bytes(s.skip(i + 1)),
    decreases s.len(),
{
    if i == 0 {
        assert(s.take(0) =~= Seq::<AppSlot>::empty());
        assert(s.skip(1) =~= s.drop_first());
    } else {
        let rest = s.drop_first();
        lemma_live_bytes_around(rest, i - 1);
        assert(rest.take(i - 1) =~= s.take(i).drop_first());
        assert(rest.skip(i) =~= s.skip(i + 1));
        assert(rest[i - 1] == s[i]);
        assert(live_bytes(s.take(i)) == (if s.take(i)[0].initialized {
            s.take(i)[0].size as int
        } else {
            0
        }) + live_bytes(s.take(i).drop_first()));
        assert(s.take(i)[0] == s[0]);
    }
}

pub proof fn lemma_live_bytes_update(s: Seq<AppSlot>, i: int, v: AppSlot)
    requires
        0 <= i < s.len(),
    ensures
        live_bytes(s.update(i, v)) == live_bytes(s) - (if s[i].initialized {
            s[i].size as int
        } else {
            0
        }) + (if v.initialized {
            v.size as int
        } else {
            0
        }),
{
    let t = s.update(i, v);
    lemma_live_bytes_around(s, i);
    lemma_live_bytes_around(t, i);
    assert(t.take(i) =~= s.take(i));
    assert(t.skip(i + 1) =~= s.skip(i + 1));
}

pub proof fn lemma_live_bytes_nonneg(s: Seq<AppSlot>)
    ensures
        live_bytes(s) >= 0,
    decreases s.len(),
{
    if s.len() > 0 {
        lemma_live_bytes_nonneg(s.drop_first());
    }
}

pub proof fn lemma_live_bytes_all_cleared(s: Seq<AppSlot>)
    requires
        forall|i: int| 0 <= i < s.len() ==> !(#[trigger] s[i]).initialized,
    ensures
        live_bytes(s) == 0,
    decreases s.len(),
{
    if s.len() > 0 {
        let rest = s.drop_first();
        assert(forall|k: int| 0 <= k < rest.len() ==> #[trigger] rest[k] == s[k + 1]);
        lemma_live_bytes_all_cleared(rest);
    }
}

/// The bump frontier rounded up to the next grant boundary.
pub open spec fn round_up_arena(b: int) -> int {
    b + align_pad(b, USER_ARENA_ALIGN as int)
}

/// Number of live slots.
pub open spec fn live_count(s: Seq<AppSlot>) -> int
    decreases s.len(),
{
    if s.len() == 0 {
        0
    } else {
        (if s[0].initialized {
            1int
        } else {
            0int
        }) + live_count(s.drop_first())
    }
}

/// Fewer live slots than table entries leaves a free slot to find.
pub proof fn lemma_free_slot_exists(s: Seq<AppSlot>)
    requires
        live_count(s) < s.len(),
    ensures
        find_first(s, is_free_slot()) is Some,
    decreases s.len(),
{
    if s.len() > 0 && s[0].initialized {
        lemma_free_slot_exists(s.drop_first());
    }
}

/// A quota rounded up to the grant boundary.
pub open spec fn rounded_quota(q: int) -> int {
    q + align_pad(q, USER_ARENA_ALIGN as int)
}

/// Sum of 4096-rounded quotas.
pub open spec fn rounded_sum(quotas: Seq<int>) -> int
    decreases quotas.len(),
{
    if quotas.len() == 0 {
        0
    } else {
        rounded_sum(quotas.drop_last()) + rounded_quota(quotas.last())
    }
}

proof fn lemma_rounded_sum_shape(quotas: Seq<int>)
    requires
        forall|i: int| 0 <= i < quotas.len() ==> 0 <= #[trigger] quotas[i],
    ensures
        0 <= rounded_sum(quotas),
        rounded_sum(quotas) % (USER_ARENA_ALIGN as int) == 0,
    decreases quotas.len(),
{
    if quotas.len() > 0 {
        assert(forall|i: int|
            0 <= i < quotas.len() - 1 ==> #[trigger] quotas.drop_last()[i] == quotas[i]);
        lemma_rounded_sum_shape(quotas.drop_last());
        let q = quotas.last();
        let al = USER_ARENA_ALIGN as int;
        assert(0 <= (al - q % al) % al < al && (q + (al - q % al) % al) % al == 0) by (
        nonlinear_arith)
            requires
                al == 4096,
                q >= 0,
        ;
        assert((rounded_sum(quotas.drop_last()) + rounded_quota(q)) % al == 0) by (
        nonlinear_arith)
            requires
                al == 4096,
                rounded_sum(quotas.drop_last()) % al == 0,
                rounded_quota(q) % al == 0,
        ;
    }
}

/// Law (registration capacity, sequence form): follow the bump frontier
/// through any run of operations.  An operation either leaves it in place —
/// an idempotent or failed registration, a region reuse, any unregister —
/// or carves quota `q` at the aligned frontier.  Starting from a fresh
/// arena, the frontier never exceeds the sum of the 4096-rounded quotas
/// carved so far; so while that sum stays at most the arena size and a slot
/// is free, `lemma_register_succeeds` applies and every registration in the
/// run succeeds.
pub proof fn lemma_bump_within_budget(bumps: Seq<int>, quotas: Seq<int>)
    requires
        bumps.len() == quotas.len() + 1,
        bumps[0] == 0,
        forall|i: int| 0 <= i < quotas.len() ==> 0 <= #[trigger] quotas[i],
        forall|i: int|
            0 <= i < quotas.len() ==> (#[trigger] bumps[i + 1] == bumps[i] || bumps[i + 1]
                == round_up_arena(bumps[i]) + quotas[i]),
    ensures
        forall|i: int| 0 <= i < bumps.len() ==> #[trigger] bumps[i] <= rounded_sum(
            quotas.take(i),
        ),
    decreases quotas.len(),
{
    let al = USER_ARENA_ALIGN as int;
    if quotas.len() == 0 {
        assert(rounded_sum(quotas.take(0)) == 0);
    } else {
        let shorter_b = bumps.drop_last();
        let shorter_q = quotas.drop_last();
        assert(forall|i: int|
            0 <= i < shorter_b.len() ==> #[trigger] shorter_b[i] == bumps[i]);
        assert(forall|i: int|
            0 <= i < shorter_q.len() ==> #[trigger] shorter_q[i] == quotas[i]);
        assert(forall|i: int| 0 <= i < shorter_q.len() ==> shorter_q.take(i) =~= quotas.take(i));
        lemma_bump_within_budget(shorter_b, shorter_q);
        let n = quotas.len() as int;
        assert forall|i: int| 0 <= i < bumps.len() implies #[trigger] bumps[i] <= rounded_sum(
            quotas.take(i),
        ) by {
            if i < n {
                assert(shorter_q.take(i) =~= quotas.take(i));
                assert(bumps[i] == shorter_b[i]);
            } else {
                // the last step: stay, or carve at the aligned frontier
                assert(shorter_q.take(n - 1) =~= quotas.take(n - 1));
                assert(shorter_b[n - 1] == bumps[n - 1]);
                assert(shorter_b[n - 1] <= rounded_sum(shorter_q.take(n - 1)));
                assert(bumps[n - 1] <= rounded_sum(quotas.take(n - 1)));
                lemma_rounded_sum_shape(quotas.take(n - 1));
                assert(quotas.take(n) =~= quotas);
                assert(quotas.take(n - 1) =~= quotas.drop_last());
                let prev_sum = rounded_sum(quotas.take(n - 1));
                let q = quotas[n - 1];
                assert(0 <= (al - q % al) % al) by (nonlinear_arith)
                    requires
                        al == 4096,
                        q >= 0,
                ;
                if bumps[n] != bumps[n - 1] && bumps[n - 1] >= 0 {
                    lemma_round_up_le(bumps[n - 1], prev_sum);
                }
            }
        }
    }
}

/// Rounding up to the grant boundary stays within any 4096-multiple cap.
pub proof fn lemma_round_up_le(b: int, cap: int)
    requires
        0 <= b <= cap,
        cap % (USER_ARENA_ALIGN as int) == 0,
    ensures
        b <= round_up_arena(b),
        round_up_arena(b) <= cap,
        round_up_arena(b) % (USER_ARENA_ALIGN as int) == 0,
{
    let al = USER_ARENA_ALIGN as int;
    assert(0 <= (al - b % al) % al < al && (b + (al - b % al) % al) % al == 0) by (nonlinear_arith)
        requires
            al == 4096,
            b >= 0,
    ;
    let r = round_up_arena(b);
    if r > cap {
        assert(r >= cap + al) by (nonlinear_arith)
            requires
                al == 4096,
                r % al == 0,
                cap % al == 0,
                r > cap,
                cap >= 0,
        ;
    }
}

/// The quota-partitioned application arena.
pub struct Arena {
    size: usize,
    bump_offset: usize,
    free_regions: Vec<(usize, usize)>,
    slots: Vec<AppSlot>,
}

impl Arena {
    pub closed spec fn arena_size(&self) -> int {
        self.size as int
    }

    pub closed spec fn bump(&self) -> int {
        self.bump_offset as int
    }

    /// Stored free regions, in table order.
    pub closed spec fn regions(&self) -> Seq<(usize, usize)> {
        self.free_regions@
    }

    /// The slot table (always `MAX_APPS` entries).
    pub closed spec fn slot_table(&self) -> Seq<AppSlot> {
        self.slots@
    }

    /// Index of the live slot bound to `id`, if any.
    pub open spec fn find_app(&self, id: AppId) -> Option<int> {
        find_first(self.slot_table(), is_live_id(id))
    }

    pub open spec fn is_registered(&self, id: AppId) -> bool {
        self.find_app(id) is Some
    }

    /// Sum the arena hands out on a capacity query: untouched tail plus all
    /// stored free regions.  May overstate what one request can get.
    pub open spec fn free_for_new(&self) -> int {
        (self.arena_size() - self.bump()) + span_sum(self.regions())
    }

    /// The region a registration for `quota` bytes would be granted now:
    /// the whole first stored region of at least `quota` bytes, or a fresh
    /// carve of exactly `quota` bytes at the aligned bump frontier.
    pub open spec fn grant(&self, quota: int) -> Option<(int, int)> {
        match find_first(self.regions(), region_fits(quota)) {
            Some(k) => Some((self.regions()[k].0 as int, self.regions()[k].1 as int)),
            None => {
                let a = round_up_arena(self.bump());
                if a + quota <= self.arena_size() {
                    Some((a, quota))
                } else {
                    None
                }
            },
        }
    }

    /// A registration for a new id succeeds exactly when a region can be
    /// granted and a slot is free.
    pub open spec fn can_register(&self, quota: int) -> bool {
        self.grant(quota) is Some && find_first(self.slot_table(), is_free_slot()) is Some
    }

    /// The arena invariant: bounded tables, live regions and free regions
    /// all below the bump frontier and pairwise disjoint, unique ids, and
    /// the accounting bound that free regions plus live regions never
    /// exceed the bumped-out prefix.
    pub closed spec fn wf(&self) -> bool {
        &&& self.bump_offset <= self.size
        &&& self.slots@.len() == MAX_APPS
        &&& self.free_regions@.len() <= MAX_APPS
        &&& forall|i: int|
            0 <= i < self.free_regions@.len() ==> (#[trigger] self.free_regions@[i]).0
                + self.free_regions@[i].1 <= self.bump_offset
        &&& forall|i: int|
            0 <= i < self.slots@.len() ==> slot_ok(#[trigger] self.slots@[i], self.bump_offset as int)
        &&& forall|i: int, j: int|
            0 <= i < j < self.slots@.len() && (#[trigger] self.slots@[i]).initialized && (
            #[trigger] self.slots@[j]).initialized ==> ranges_disjoint(
                slot_range(self.slots@[i]),
                slot_range(self.slots@[j]),
            ) && self.slots@[i].id != self.slots@[j].id
        &&& forall|i: int, j: int|
            0 <= i < self.slots@.len() && 0 <= j < self.free_regions@.len() && (
            #[trigger] self.slots@[i]).initialized ==> ranges_disjoint(
                slot_range(self.slots@[i]),
                region_range(#[trigger] self.free_regions@[j]),
            )
        &&& forall|i: int, j: int|
            0 <= i < j < self.free_regions@.len() ==> ranges_disjoint(
                region_range(#[trigger] self.free_regions@[i]),
                region_range(#[trigger] self.free_regions@[j]),
            )
        &&& span_sum(self.free_regions@) + live_bytes(self.slots@) <= self.bump_offset
    }

    /// A slot holding no application.
    fn cleared_slot() -> (s: AppSlot)
        ensures
            slot_cleared(s),
    {
        AppSlot {
            id: None,
            offset: 0,
            size: 0,
            heap: FreeSpace::new(0),
            peak_used: 0,
            alloc_count: 0,
            dealloc_count: 0,
            initialized: false,
        }
    }

    /// One-time setup: an empty arena of `USER_ARENA_SIZE` bytes.
    pub fn init_user_arena() -> (a: Arena)
        ensures
            a.wf(),
            a.arena_size() == USER_ARENA_SIZE,
            a.bump() == 0,
            a.regions().len() == 0,
            a.free_for_new() == USER_ARENA_SIZE,
            forall|i: int| 0 <= i < MAX_APPS ==> slot_cleared(#[trigger] a.slot_table()[i]),
            forall|id: AppId| !a.is_registered(id),
    {
        let mut slots: Vec<AppSlot> = Vec::new();
        let mut i: usize = 0;
        while i < MAX_APPS
            invariant
                i <= MAX_APPS,
                slots@.len() == i,
                forall|k: int| 0 <= k < i ==> slot_cleared(#[trigger] slots@[k]),
            decreases MAX_APPS - i,
        {
            slots.push(Self::cleared_slot());
            i = i + 1;
        }
        let a = Arena { size: USER_ARENA_SIZE, bump_offset: 0, free_regions: Vec::new(), slots };
        proof {
            lemma_live_bytes_all_cleared(a.slots@);
            assert forall|id: AppId| !a.is_registered(id) by {
                lemma_find_first_props(a.slots@, is_live_id(id));
            }
        }
        a
    }

    /// Index of the live slot bound to `app_id`, scanning in table order.
    fn find_app_index(&self, app_id: AppId) -> (r: Option<usize>)
        requires
            self.wf(),
        ensures
            match r {
                Some(j) => j < MAX_APPS && self.find_app(app_id) == Some(j as int)
                    && is_live_id(app_id)(self.slot_table()[j as int]),
                None => self.find_app(app_id) is None,
            },
    {
        let n = self.slots.len();
        let mut i: usize = 0;
        while i < n
            invariant
                i <= n,
                n == self.slots@.len(),
                self.wf(),
                forall|k: int| 0 <= k < i ==> !is_live_id(app_id)(#[trigger] self.slots@[k]),
            decreases n - i,
        {
            let s = &self.slots[i];
            let hit: bool = s.initialized && match s.id {
                Some(x) => x == app_id,
                None => false,
            };
            if hit {
                proof {
                    lemma_find_first_at(self.slots@, is_live_id(app_id), i as int);
                }
                return Some(i);
            }
            i = i + 1;
        }
        proof {
            lemma_find_first_props(self.slots@, is_live_id(app_id));
        }
        None
    }

    /// Index of the first slot free for a new registration.
    fn find_free_index(&self) -> (r: Option<usize>)
        requires
            self.wf(),
        ensures
            match r {
                Some(j) => j < MAX_APPS && find_first(self.slot_table(), is_free_slot()) == Some(
                    j as int,
                ) && !self.slot_table()[j as int].initialized,
                None => find_first(self.slot_table(), is_free_slot()) is None,
            },
    {
        let n = self.slots.len();
        let mut i: usize = 0;
        while i < n
            invariant
                i <= n,
                n == self.slots@.len(),
                self.wf(),
                forall|k: int| 0 <= k < i ==> !is_free_slot()(#[trigger] self.slots@[k]),
            decreases n - i,
        {
            let s = &self.slots[i];
            if !s.initialized {
                proof {
                    lemma_find_first_at(self.slots@, is_free_slot(), i as int);
                }
                return Some(i);
            }
            i = i + 1;
        }
        proof {
            lemma_find_first_props(self.slots@, is_free_slot());
        }
        None
    }

    /// Size accessor.
    pub fn arena_size_bytes(&self) -> (r: usize)
        ensures
            r == self.arena_size(),
    {
        self.size
    }

    /// Untouched tail plus stored free regions; callers must not assume a
    /// request up to this size is actually satisfiable (fragmentation).
    pub fn free_for_new_regions(&self) -> (r: usize)
        requires
            self.wf(),
        ensures
            r == self.free_for_new(),
    {
        proof {
            lemma_live_bytes_nonneg(self.slots@);
            lemma_span_sum_nonneg(self.free_regions@);
        }
        let mut acc: usize = self.size - self.bump_offset;
        let n = self.free_regions.len();
        let mut i: usize = 0;
        while i < n
            invariant
                i <= n,
                n == self.free_regions@.len(),
                self.wf(),
                acc == (self.arena_size() - self.bump()) + span_sum(self.free_regions@.take(i as int)),
                acc <= self.arena_size(),
            decreases n - i,
        {
            proof {
                lemma_span_sum_around(self.free_regions@, i as int);
                lemma_span_sum_nonneg(self.free_regions@.skip(i as int + 1));
                lemma_span_sum_nonneg(self.free_regions@.take(i as int));
                lemma_live_bytes_nonneg(self.slots@);
                assert(self.free_regions@.take(i as int + 1) =~= self.free_regions@.take(i as int)
                    + seq![self.free_regions@[i as int]]);
                crate::freelist::lemma_span_sum_add(
                    self.free_regions@.take(i as int),
                    seq![self.free_regions@[i as int]],
                );
                crate::freelist::lemma_span_sum_singleton(self.free_regions@[i as int]);
            }
            let region: (usize, usize) = self.free_regions[i];
            acc = acc + region.1;
            i = i + 1;
        }
        proof {
            assert(self.free_regions@.take(n as int) =~= self.free_regions@);
        }
        acc
    }

    /// Accounting for one application: `None` when `app_id` is not
    /// registered; `used` and `free` recomputed from the live allocator.
    pub fn app_stats(&self, app_id: AppId) -> (r: Option<AppHeapStats>)
        requires
            self.wf(),
        ensures
            self.find_app(app_id) is None ==> r is None,
            self.find_app(app_id) matches Some(j) ==> r matches Some(st) && {
                let s = self.slot_table()[j];
                &&& st.total == s.size
                &&& st.free == s.heap.free()
                &&& st.used == s.size - s.heap.free()
                &&& st.used + st.free == st.total
                &&& st.peak_used == s.peak_used
                &&& st.alloc_count == s.alloc_count
                &&& st.dealloc_count == s.dealloc_count
            },
    {
        match self.find_app_index(app_id) {
            None => None,
            Some(j) => {
                let s = &self.slots[j];
                proof {
                    s.heap.lemma_free_in_range();
                }
                let free = s.heap.free_bytes();
                let used = s.size - free;
                Some(
                    AppHeapStats {
                        used,
                        free,
                        total: s.size,
                        peak_used: s.peak_used,
                        alloc_count: s.alloc_count,
                        dealloc_count: s.dealloc_count,
                    },
                )
            },
        }
    }

    /// Index of the first stored free region of at least `quota` bytes.
    fn region_fit_index(&self, quota: usize) -> (r: Option<usize>)
        requires
            self.wf(),
        ensures
            match r {
                Some(k) => k < self.regions().len() && find_first(
                    self.regions(),
                    region_fits(quota as int),
                ) == Some(k as int) && self.regions()[k as int].1 >= quota,
                None => find_first(self.regions(), region_fits(quota as int)) is None,
            },
    {
        let n = self.free_regions.len();
        let mut i: usize = 0;
        while i < n
            invariant
                i <= n,
                n == self.free_regions@.len(),
                self.wf(),
                forall|k: int|
                    0 <= k < i ==> !region_fits(quota as int)(#[trigger] self.free_regions@[k]),
            decreases n - i,
        {
            let region: (usize, usize) = self.free_regions[i];
            if region.1 >= quota {
                proof {
                    lemma_find_first_at(self.free_regions@, region_fits(quota as int), i as int);
                }
                return Some(i);
            }
            i = i + 1;
        }
        proof {
            lemma_find_first_props(self.free_regions@, region_fits(quota as int));
        }
        None
    }

    /// Law (registration capacity): registering a new id cannot fail while
    /// a slot is still free and the aligned bump frontier leaves room for
    /// the quota — whatever the free-region list holds.  Since every
    /// registration advances the bump frontier by at most its 4096-rounded
    /// quota (see the `register_app` contract) and `unregister_app` never
    /// moves it, every register/unregister sequence whose rounded quotas
    /// sum to at most the arena size, with at most `MAX_APPS` live apps,
    /// keeps this premise true, so each of its registrations succeeds.
    pub proof fn lemma_register_succeeds(&self, quota: int)
        requires
            self.wf(),
            live_count(self.slot_table()) < MAX_APPS,
            round_up_arena(self.bump()) + quota <= self.arena_size(),
        ensures
            self.can_register(quota),
    {
        lemma_free_slot_exists(self.slot_table());
    }

    /// A grantable request never exceeds the advertised capacity.
    pub proof fn lemma_grant_needs_space(&self, quota: int)
        requires
            self.wf(),
            0 <= quota,
            self.grant(quota) is Some,
        ensures
            self.free_for_new() >= quota,
    {
        lemma_find_first_props(self.regions(), region_fits(quota));
        match find_first(self.regions(), region_fits(quota)) {
            Some(k) => {
                lemma_span_sum_ge_elem(self.regions(), k);
            },
            None => {
                lemma_span_sum_nonneg(self.regions());
            },
        }
    }

    /// Register `app_id` with a quota of `quota_bytes`.
    ///
    /// A live id returns `true` at once, consuming nothing — the quota
    /// argument is ignored and the existing region untouched.  Otherwise the
    /// arena grants the whole first stored free region of at least
    /// `quota_bytes` (a grant may exceed the quota), or carves exactly
    /// `quota_bytes` at the 4096-aligned bump frontier, and binds it to the
    /// first free slot with a fresh allocator and zeroed counters.  When no
    /// region can be granted or the slot table is exhausted, it returns
    /// `false` with the arena unchanged.
    pub fn register_app(&mut self, app_id: AppId, quota_bytes: usize) -> (r: bool)
        requires
            old(self).wf(),
        ensures
            final(self).wf(),
            old(self).is_registered(app_id) ==> r && *final(self) == *old(self),
            !old(self).is_registered(app_id) ==> ({
                &&& (r <==> old(self).can_register(quota_bytes as int))
                &&& (!r ==> *final(self) == *old(self))
                &&& (r ==> ({
                    let j = find_first(old(self).slot_table(), is_free_slot()).unwrap();
                    let g = old(self).grant(quota_bytes as int).unwrap();
                    &&& final(self).find_app(app_id) == Some(j)
                    &&& slot_fresh(final(self).slot_table()[j], app_id, g.0, g.1)
                    &&& forall|k: int|
                        0 <= k < MAX_APPS && k != j ==> final(self).slot_table()[k] == old(
                            self,
                        ).slot_table()[k]
                    &&& final(self).arena_size() == old(self).arena_size()
                    &&& match find_first(old(self).regions(), region_fits(quota_bytes as int)) {
                        Some(k) => final(self).regions() == old(self).regions().update(
                            k,
                            old(self).regions().last(),
                        ).drop_last() && final(self).bump() == old(self).bump(),
                        None => final(self).regions() == old(self).regions() && final(self).bump()
                            == round_up_arena(old(self).bump()) + quota_bytes,
                    }
                }))
            }),
    {
        match self.find_app_index(app_id) {
            Some(_) => {
                return true;
            },
            None => {},
        }
        let j = match self.find_free_index() {
            None => {
                return false;
            },
            Some(j) => j,
        };
        // advisory capacity pre-check; it never rejects a request the carve
        // below could grant
        if self.free_for_new_regions() < quota_bytes {
            proof {
                if self.grant(quota_bytes as int) is Some {
                    self.lemma_grant_needs_space(quota_bytes as int);
                }
            }
            return false;
        }
        let ghost pre = *self;
        proof {
            lemma_find_first_props(pre.slots@, is_live_id(app_id));
        }
        let grant_pair: (usize, usize) = match self.region_fit_index(quota_bytes) {
            Some(k) => self.free_regions.swap_remove(k),
            None => {
                let pad: usize = (USER_ARENA_ALIGN - self.bump_offset % USER_ARENA_ALIGN)
                    % USER_ARENA_ALIGN;
                if pad > self.size - self.bump_offset || quota_bytes > self.size
                    - self.bump_offset - pad {
                    return false;
                }
                let aligned = self.bump_offset + pad;
                self.bump_offset = aligned + quota_bytes;
                (aligned, quota_bytes)
            },
        };
        let heap = FreeSpace::new(grant_pair.1);
        self.slots[j] = AppSlot {
            id: Some(app_id),
            offset: grant_pair.0,
            size: grant_pair.1,
            heap,
            peak_used: 0,
            alloc_count: 0,
            dealloc_count: 0,
            initialized: true,
        };
        proof {
            let post = *self;
            let g = grant_pair;
            let fitk = find_first(pre.free_regions@, region_fits(quota_bytes as int));
            lemma_find_first_props(pre.free_regions@, region_fits(quota_bytes as int));
            assert(post.slots@ == pre.slots@.update(j as int, post.slots@[j as int]));
            lemma_live_bytes_update(pre.slots@, j as int, post.slots@[j as int]);
            if fitk is Some {
                let k = fitk.unwrap();
                // the whole stored region k was granted and removed by a
                // swap with the last entry
                lemma_span_sum_update(pre.free_regions@, k, pre.free_regions@.last());
                lemma_span_sum_drop_last(pre.free_regions@.update(k, pre.free_regions@.last()));
                assert forall|m: int|
                    0 <= m < post.free_regions@.len() implies (#[trigger] post.free_regions@[m])
                    == pre.free_regions@[(if m == k {
                    pre.free_regions@.len() - 1
                } else {
                    m
                })] by {}
                assert forall|a: int, b: int|
                    0 <= a < post.slots@.len() && 0 <= b < post.free_regions@.len() && (
                #[trigger] post.slots@[a]).initialized implies ranges_disjoint(
                    slot_range(post.slots@[a]),
                    region_range(#[trigger] post.free_regions@[b]),
                ) by {
                    let src = if b == k {
                        pre.free_regions@.len() - 1
                    } else {
                        b
                    };
                    if a == j as int {
                        if src < k {
                            assert(ranges_disjoint(
                                region_range(pre.free_regions@[src]),
                                region_range(pre.free_regions@[k]),
                            ));
                        } else if src > k {
                            assert(ranges_disjoint(
                                region_range(pre.free_regions@[k]),
                                region_range(pre.free_regions@[src]),
                            ));
                        }
                    } else {
                        assert(ranges_disjoint(slot_range(pre.slots@[a]), region_range(
                            pre.free_regions@[src],
                        )));
                    }
                }
                assert forall|a: int, b: int|
                    0 <= a < b < post.free_regions@.len() implies ranges_disjoint(
                    region_range(#[trigger] post.free_regions@[a]),
                    region_range(#[trigger] post.free_regions@[b]),
                ) by {
                    let sa = if a == k {
                        pre.free_regions@.len() - 1
                    } else {
                        a
                    };
                    let sb = if b == k {
                        pre.free_regions@.len() - 1
                    } else {
                        b
                    };
                    if sa < sb {
                        assert(ranges_disjoint(
                            region_range(pre.free_regions@[sa]),
                            region_range(pre.free_regions@[sb]),
                        ));
                    } else {
                        assert(ranges_disjoint(
                            region_range(pre.free_regions@[sb]),
                            region_range(pre.free_regions@[sa]),
                        ));
                    }
                }
                assert forall|a: int, b: int|
                    0 <= a < b < post.slots@.len() && (#[trigger] post.slots@[a]).initialized && (
                #[trigger] post.slots@[b]).initialized implies ranges_disjoint(
                    slot_range(post.slots@[a]),
                    slot_range(post.slots@[b]),
                ) && post.slots@[a].id != post.slots@[b].id by {
                    if a == j as int {
                        assert(ranges_disjoint(slot_range(pre.slots@[b]), region_range(
                            pre.free_regions@[k],
                        )));
                    } else if b == j as int {
                        assert(ranges_disjoint(slot_range(pre.slots@[a]), region_range(
                            pre.free_regions@[k],
                        )));
                    }
                }
                assert(post.wf());
            } else {
                // fresh carve: the granted range starts at or after every
                // existing end, so disjointness is immediate
                assert forall|a: int, b: int|
                    0 <= a < b < post.slots@.len() && (#[trigger] post.slots@[a]).initialized && (
                #[trigger] post.slots@[b]).initialized implies ranges_disjoint(
                    slot_range(post.slots@[a]),
                    slot_range(post.slots@[b]),
                ) && post.slots@[a].id != post.slots@[b].id by {}
                assert(post.wf());
            }
            lemma_find_first_at(post.slots@, is_live_id(app_id), j as int);
        }
        true
    }

    /// Release `app_id`'s registration: the slot is cleared for reuse and
    /// the region goes back on the free-region list — unless that list is
    /// full, in which case the region is dropped for good (the bump frontier
    /// never retracts).  Returns `false`, touching nothing, for an unknown id.
    pub fn unregister_app(&mut self, app_id: AppId) -> (r: bool)
        requires
            old(self).wf(),
        ensures
            final(self).wf(),
            r == old(self).is_registered(app_id),
            !r ==> *final(self) == *old(self),
            r ==> ({
                let j = old(self).find_app(app_id).unwrap();
                let s = old(self).slot_table()[j];
                &&& slot_cleared(final(self).slot_table()[j])
                &&& forall|k: int|
                    0 <= k < MAX_APPS && k != j ==> final(self).slot_table()[k] == old(
                        self,
                    ).slot_table()[k]
                &&& final(self).find_app(app_id) is None
                &&& final(self).bump() == old(self).bump()
                &&& final(self).arena_size() == old(self).arena_size()
                &&& final(self).regions() == (if old(self).regions().len() < MAX_APPS {
                    old(self).regions().push((s.offset, s.size))
                } else {
                    old(self).regions()
                })
            }),
    {
        let j = match self.find_app_index(app_id) {
            None => {
                return false;
            },
            Some(j) => j,
        };
        proof {
            lemma_find_first_props(self.slots@, is_live_id(app_id));
        }
        let off: usize = self.slots[j].offset;
        let sz: usize = self.slots[j].size;
        let ghost pre = *self;
        self.slots[j] = Self::cleared_slot();
        proof {
            lemma_live_bytes_update(pre.slots@, j as int, self.slots@[j as int]);
        }
        if self.free_regions.len() < MAX_APPS {
            self.free_regions.push((off, sz));
            proof {
                lemma_span_sum_push(pre.free_regions@, (off, sz));
            }
        }
        proof {
            let post = *self;
            assert(post.slots@ == pre.slots@.update(j as int, post.slots@[j as int]));
            // the freed region was the live slot j's region, so it is in
            // range and disjoint from every other live slot and region
            assert forall|a: int, b: int|
                0 <= a < post.slots@.len() && 0 <= b < post.free_regions@.len() && (
                #[trigger] post.slots@[a]).initialized implies ranges_disjoint(
                slot_range(post.slots@[a]),
                region_range(#[trigger] post.free_regions@[b]),
            ) by {
                if b < pre.free_regions@.len() {
                    assert(post.free_regions@[b] == pre.free_regions@[b]);
                    assert(post.slots@[a] == pre.slots@[a]);
                } else {
                    // the pushed region: slot a is live and distinct from j
                    assert(post.slots@[a] == pre.slots@[a]);
                    if a < j as int {
                        assert(ranges_disjoint(slot_range(pre.slots@[a]), slot_range(
                            pre.slots@[j as int],
                        )));
                    } else {
                        assert(ranges_disjoint(slot_range(pre.slots@[j as int]), slot_range(
                            pre.slots@[a],
                        )));
                    }
                }
            }
            assert forall|a: int, b: int|
                0 <= a < b < post.free_regions@.len() implies ranges_disjoint(
                region_range(#[trigger] post.free_regions@[a]),
                region_range(#[trigger] post.free_regions@[b]),
            ) by {
                if b < pre.free_regions@.len() {
                } else {
                    assert(post.free_regions@[a] == pre.free_regions@[a]);
                    assert(ranges_disjoint(slot_range(pre.slots@[j as int]), region_range(
                        pre.free_regions@[a],
                    )));
                }
            }
            assert(post.wf());
            // the id cannot be live anywhere else, so the lookup now misses
            assert forall|k: int|
                0 <= k < post.slots@.len() implies !is_live_id(app_id)(
                #[trigger] post.slots@[k]) by {
                if k != j as int && post.slots@[k].initialized {
                    if k < j as int {
                        assert(pre.slots@[k].id != pre.slots@[j as int].id);
                    } else {
                        assert(pre.slots@[j as int].id != pre.slots@[k].id);
                    }
                }
            }
            lemma_find_first_props(post.slots@, is_live_id(app_id));
        }
        true
    }

    /// Allocate `size` bytes at alignment `align` (a power of two) from
    /// `app_id`'s own region.  Returns the arena offset of the block —
    /// always inside the granted region — or `None` for an unknown id or
    /// when the region's allocator has no room, in which case nothing
    /// changes.
    pub fn app_alloc(&mut self, app_id: AppId, size: usize, align: usize) -> (r: Option<usize>)
        requires
            old(self).wf(),
            spec_pow2(align as int),
        ensures
            final(self).wf(),
            old(self).find_app(app_id) is None ==> r is None && *final(self) == *old(self),
            old(self).find_app(app_id) is Some ==> ({
                let j = old(self).find_app(app_id).unwrap();
                let s = old(self).slot_table()[j];
                &&& (r is Some <==> s.heap.fits(size as int, align as int))
                &&& (r is None ==> *final(self) == *old(self))
                &&& (r is Some ==> ({
                    let p = r.unwrap();
                    let t = final(self).slot_table()[j];
                    &&& s.offset <= p
                    &&& p + size <= s.offset + s.size
                    &&& (p - s.offset) % (align as int) == 0
                    &&& t.initialized && t.id == s.id && t.offset == s.offset && t.size == s.size
                    &&& t.heap.free() == s.heap.free() - size
                    &&& t.heap.can_release(p - s.offset, size as int)
                    &&& t.alloc_count == crate::heap::count_inc(s.alloc_count as int)
                    &&& t.dealloc_count == s.dealloc_count
                    &&& t.peak_used == (if s.size - t.heap.free() > s.peak_used {
                        s.size - t.heap.free()
                    } else {
                        s.peak_used as int
                    })
                    &&& forall|k: int|
                        0 <= k < MAX_APPS && k != j ==> final(self).slot_table()[k] == old(
                            self,
                        ).slot_table()[k]
                    &&& final(self).regions() == old(self).regions()
                    &&& final(self).bump() == old(self).bump()
                    &&& final(self).arena_size() == old(self).arena_size()
                }))
            }),
    {
        let j = match self.find_app_index(app_id) {
            None => {
                return None;
            },
            Some(j) => j,
        };
        proof {
            crate::freelist::lemma_pow2_pos(align as int);
        }
        // fail fast when the recomputed free count cannot cover the request;
        // a request that still fits always passes this test
        let free_now = self.slots[j].heap.free_bytes();
        if free_now < size {
            proof {
                if self.slots@[j as int].heap.fits(size as int, align as int) {
                    self.slots@[j as int].heap.lemma_fits_free(size as int, align as int);
                }
            }
            return None;
        }
        if !self.slots[j].heap.would_fit(size, align) {
            return None;
        }
        let ghost pre = *self;
        let s_off: usize = self.slots[j].offset;
        let s_sz: usize = self.slots[j].size;
        let slot = &mut self.slots[j];
        let local = match slot.heap.allocate(size, align) {
            Some(l) => l,
            None => vstd::pervasive::unreached(),
        };
        slot.alloc_count = slot.alloc_count.saturating_add(1);
        proof {
            slot.heap.lemma_free_in_range();
        }
        let free2 = slot.heap.free_bytes();
        let used2 = s_sz - free2;
        if used2 > slot.peak_used {
            slot.peak_used = used2;
        }
        let p = s_off + local;
        proof {
            let post = *self;
            assert(post.slots@ == pre.slots@.update(j as int, post.slots@[j as int]));
            lemma_live_bytes_update(pre.slots@, j as int, post.slots@[j as int]);
            assert forall|a: int, b: int|
                0 <= a < b < post.slots@.len() && (#[trigger] post.slots@[a]).initialized && (
                #[trigger] post.slots@[b]).initialized implies ranges_disjoint(
                slot_range(post.slots@[a]),
                slot_range(post.slots@[b]),
            ) && post.slots@[a].id != post.slots@[b].id by {
                assert(pre.slots@[a].initialized && pre.slots@[b].initialized);
            }
            assert(post.wf());
        }
        Some(p)
    }

    /// Release a block of `app_id`'s region.  A pointer outside the granted
    /// region — or one that does not match an outstanding allocation — is
    /// refused with `false` and touches nothing; this range check is the
    /// cross-boundary safety net against a faulty caller.
    pub fn app_dealloc(&mut self, app_id: AppId, ptr: usize, size: usize, align: usize) -> (r:
        bool)
        requires
            old(self).wf(),
            spec_pow2(align as int),
        ensures
            final(self).wf(),
            old(self).find_app(app_id) is None ==> !r && *final(self) == *old(self),
            old(self).find_app(app_id) is Some ==> ({
                let j = old(self).find_app(app_id).unwrap();
                let s = old(self).slot_table()[j];
                let in_range = s.offset <= ptr && ptr < s.offset + s.size;
                &&& (!in_range ==> !r)
                &&& (in_range ==> r == s.heap.can_release(ptr - s.offset, size as int))
                &&& (!r ==> *final(self) == *old(self))
                &&& (r ==> ({
                    let t = final(self).slot_table()[j];
                    &&& t.initialized && t.id == s.id && t.offset == s.offset && t.size == s.size
                    &&& t.heap.free() == s.heap.free() + size
                    &&& t.dealloc_count == crate::heap::count_inc(s.dealloc_count as int)
                    &&& t.alloc_count == s.alloc_count
                    &&& t.peak_used == s.peak_used
                    &&& forall|k: int|
                        0 <= k < MAX_APPS && k != j ==> final(self).slot_table()[k] == old(
                            self,
                        ).slot_table()[k]
                    &&& final(self).regions() == old(self).regions()
                    &&& final(self).bump() == old(self).bump()
                    &&& final(self).arena_size() == old(self).arena_size()
                }))
            }),
    {
        let j = match self.find_app_index(app_id) {
            None => {
                return false;
            },
            Some(j) => j,
        };
        let s_off: usize = self.slots[j].offset;
        let s_sz: usize = self.slots[j].size;
        if !(ptr >= s_off && ptr < s_off + s_sz) {
            return false;
        }
        let local = ptr - s_off;
        if !self.slots[j].heap.would_release(local, size) {
            return false;
        }
        let ghost pre = *self;
        let slot = &mut self.slots[j];
        slot.heap.dealloc(local, size);
        slot.dealloc_count = slot.dealloc_count.saturating_add(1);
        proof {
            slot.heap.lemma_free_in_range();
        }
        proof {
            let post = *self;
            assert(post.slots@ == pre.slots@.update(j as int, post.slots@[j as int]));
            lemma_live_bytes_update(pre.slots@, j as int, post.slots@[j as int]);
            assert forall|a: int, b: int|
                0 <= a < b < post.slots@.len() && (#[trigger] post.slots@[a]).initialized && (
                #[trigger] post.slots@[b]).initialized implies ranges_disjoint(
                slot_range(post.slots@[a]),
                slot_range(post.slots@[b]),
            ) && post.slots@[a].id != post.slots@[b].id by {
                assert(pre.slots@[a].initialized && pre.slots@[b].initialized);
            }
            assert(post.wf());
        }
        true
    }

    /// What the overview reports for slot `i`: the bound id and its
    /// recomputed accounting, or `None` for a free slot.  A slot index is
    /// not a stable identity across register/unregister cycles.
    pub fn slot_overview(&self, i: usize) -> (r: Option<(AppId, AppHeapStats)>)
        requires
            self.wf(),
            i < MAX_APPS,
        ensures
            ({
                let s = self.slot_table()[i as int];
                if s.initialized {
                    r is Some && ({
                        let p = r.unwrap();
                        &&& Some(p.0) == s.id
                        &&& p.1.total == s.size
                        &&& p.1.free == s.heap.free()
                        &&& p.1.used == s.size - s.heap.free()
                        &&& p.1.used + p.1.free == p.1.total
                        &&& p.1.peak_used == s.peak_used
                        &&& p.1.alloc_count == s.alloc_count
                        &&& p.1.dealloc_count == s.dealloc_count
                    })
                } else {
                    r is None
                }
            }),
    {
        let s = &self.slots[i];
        if !s.initialized {
            return None;
        }
        let id: AppId = match s.id {
            Some(x) => x,
            None => vstd::pervasive::unreached(),
        };
        proof {
            s.heap.lemma_free_in_range();
        }
        let free = s.heap.free_bytes();
        let used = s.size - free;
        Some(
            (
                id,
                AppHeapStats {
                    used,
                    free,
                    total: s.size,
                    peak_used: s.peak_used,
                    alloc_count: s.alloc_count,
                    dealloc_count: s.dealloc_count,
                },
            ),
        )
    }

    /// Whether `app_id` could reserve `bytes` more right now, going by its
    /// recomputed free count.
    pub fn app_can_reserve_now(&self, app_id: AppId, bytes: usize) -> (r: bool)
        requires
            self.wf(),
        ensures
            r == match self.find_app(app_id) {
                Some(j) => self.slot_table()[j].heap.free() >= bytes,
                None => false,
            },
    {
        match self.app_stats(app_id) {
            Some(st) => st.free >= bytes,
            None => false,
        }
    }
}

} // verus!
