//! First-fit free-list bookkeeping over one contiguous byte range.
//!
//! `FreeSpace` records which byte offsets of a fixed-size range are free.
//! It is the one allocator engine of the crate, instantiated once for the
//! kernel heap and once per application region.  It deals purely in offsets;
//! whoever owns the actual bytes turns an offset into an address.

use vstd::prelude::*;

verus! {

/// Whether `a` is a power of two.
pub open spec fn spec_pow2(a: int) -> bool
    decreases a,
{
    if a <= 0 {
        false
    } else if a == 1 {
        true
    } else {
        a % 2 == 0 && spec_pow2(a / 2)
    }
}

/// A power of two is at least one.
pub proof fn lemma_pow2_pos(a: int)
    requires
        spec_pow2(a),
    ensures
        a >= 1,
{
}

/// Runtime check matching [`spec_pow2`].
pub fn is_power_of_two(a: usize) -> (b: bool)
    ensures
        b == spec_pow2(a as int),
{
    if a == 0 {
        return false;
    }
    let mut v: usize = a;
    while v > 1
        invariant
            v >= 1,
            spec_pow2(a as int) == spec_pow2(v as int),
        decreases v,
    {
        if v % 2 != 0 {
            return false;
        }
        v = v / 2;
    }
    true
}

/// Bytes wasted in front of `off` when rounding it up to a multiple of
/// `align` (meaningful for `align >= 1`).
pub open spec fn align_pad(off: int, align: int) -> int {
    (align - off % align) % align
}

/// Whether the free span `r` (start, length) can host `size` bytes at
/// alignment `align`.
pub open spec fn span_fit(r: (usize, usize), size: int, align: int) -> bool {
    align_pad(r.0 as int, align) + size <= r.1
}

/// Offset chosen by a first-fit scan of `s`, if any span fits.
pub open spec fn first_fit(s: Seq<(usize, usize)>, size: int, align: int) -> Option<int>
    decreases s.len(),
{
    if s.len() == 0 {
        None
    } else if span_fit(s[0], size, align) {
        Some(s[0].0 + align_pad(s[0].0 as int, align))
    } else {
        first_fit(s.drop_first(), size, align)
    }
}

/// Total length of the spans of `s`.
pub open spec fn span_sum(s: Seq<(usize, usize)>) -> int
    decreases s.len(),
{
    if s.len() == 0 {
        0
    } else {
        s[0].1 + span_sum(s.drop_first())
    }
}

/// Spans are non-empty, lie within `[0, total)`, and are sorted with no
/// overlap (adjacency is permitted only transiently; release coalesces).
pub open spec fn spans_wf(s: Seq<(usize, usize)>, total: int) -> bool {
    &&& forall|i: int|
        0 <= i < s.len() ==> 1 <= (#[trigger] s[i]).1 && s[i].0 + s[i].1 <= total
    &&& forall|i: int, j: int|
        0 <= i < j < s.len() ==> (#[trigger] s[i]).0 + s[i].1 <= (#[trigger] s[j]).0
}

pub proof fn lemma_span_sum_add(a: Seq<(usize, usize)>, b: Seq<(usize, usize)>)
    ensures
        span_sum(a + b) == span_sum(a) + span_sum(b),
    decreases a.len(),
{
    if a.len() == 0 {
        assert(a + b =~= b);
    } else {
        assert((a + b).drop_first() =~= a.drop_first() + b);
        lemma_span_sum_add(a.drop_first(), b);
    }
}

pub proof fn lemma_span_sum_singleton(x: (usize, usize))
    ensures
        span_sum(seq![x]) == x.1,
{
    assert(seq![x].drop_first() =~= Seq::<(usize, usize)>::empty());
    assert(span_sum(seq![x]) == x.1 + span_sum(Seq::<(usize, usize)>::empty()));
}

pub proof fn lemma_span_sum_nonneg(s: Seq<(usize, usize)>)
    ensures
        span_sum(s) >= 0,
    decreases s.len(),
{
    if s.len() > 0 {
        lemma_span_sum_nonneg(s.drop_first());
    }
}

/// Sum of sorted, disjoint spans that all start at or after `lo` is at most
/// `total - lo`.
pub proof fn lemma_span_sum_bounded(s: Seq<(usize, usize)>, lo: int, total: int)
    requires
        spans_wf(s, total),
        0 <= lo,
        forall|i: int| 0 <= i < s.len() ==> lo <= (#[trigger] s[i]).0,
        lo <= total,
    ensures
        span_sum(s) <= total - lo,
    decreases s.len(),
{
    if s.len() > 0 {
        let rest = s.drop_first();
        assert forall|i: int| 0 <= i < rest.len() implies s[0].0 + s[0].1 <= (
        #[trigger] rest[i]).0 by {
            assert(rest[i] == s[i + 1]);
        }
        assert(spans_wf(rest, total)) by {
            assert(forall|i: int|
                0 <= i < rest.len() ==> (#[trigger] rest[i]) == s[i + 1]);
        }
        lemma_span_sum_bounded(rest, s[0].0 + s[0].1, total);
    }
}

pub proof fn lemma_span_sum_push(s: Seq<(usize, usize)>, v: (usize, usize))
    ensures
        span_sum(s.push(v)) == span_sum(s) + v.1,
{
    assert(s.push(v) =~= s + seq![v]);
    lemma_span_sum_add(s, seq![v]);
    lemma_span_sum_singleton(v);
}

pub proof fn lemma_span_sum_update(s: Seq<(usize, usize)>, k: int, v: (usize, usize))
    requires
        0 <= k < s.len(),
    ensures
        span_sum(s.update(k, v)) == span_sum(s) - s[k].1 + v.1,
{
    let t = s.update(k, v);
    lemma_span_sum_around(s, k);
    lemma_span_sum_around(t, k);
    assert(t.take(k) =~= s.take(k));
    assert(t.skip(k + 1) =~= s.skip(k + 1));
}

pub proof fn lemma_span_sum_drop_last(s: Seq<(usize, usize)>)
    requires
        s.len() > 0,
    ensures
        span_sum(s.drop_last()) == span_sum(s) - s.last().1,
{
    lemma_span_sum_around(s, s.len() - 1);
    assert(s.drop_last() =~= s.take(s.len() - 1));
    assert(s.skip(s.len() as int) =~= Seq::<(usize, usize)>::empty());
}

/// The whole sum is at least any single span's length.
pub proof fn lemma_span_sum_ge_elem(s: Seq<(usize, usize)>, k: int)
    requires
        0 <= k < s.len(),
    ensures
        span_sum(s) >= s[k].1,
{
    lemma_span_sum_around(s, k);
    lemma_span_sum_nonneg(s.take(k));
    lemma_span_sum_nonneg(s.skip(k + 1));
}

/// A successful first fit points at a span that can host the request.
pub proof fn lemma_first_fit_witness(s: Seq<(usize, usize)>, size: int, align: int)
    requires
        first_fit(s, size, align) is Some,
    ensures
        exists|k: int| 0 <= k < s.len() && span_fit(#[trigger] s[k], size, align),
    decreases s.len(),
{
    if s.len() > 0 {
        if span_fit(s[0], size, align) {
        } else {
            lemma_first_fit_witness(s.drop_first(), size, align);
            let j = choose|k: int|
                0 <= k < s.drop_first().len() && span_fit(#[trigger] s.drop_first()[k], size, align);
            assert(s.drop_first()[j] == s[j + 1]);
            assert(span_fit(s[j + 1], size, align));
        }
    }
}

/// Decompose a sum around one index: `s` is prefix + element + suffix.
pub proof fn lemma_span_sum_around(s: Seq<(usize, usize)>, i: int)
    requires
        0 <= i < s.len(),
    ensures
        span_sum(s) == span_sum(s.take(i)) + s[i].1 + span_sum(s.skip(i + 1)),
{
    assert(s =~= s.take(i) + seq![s[i]] + s.skip(i + 1));
    lemma_span_sum_add(s.take(i) + seq![s[i]], s.skip(i + 1));
    lemma_span_sum_add(s.take(i), seq![s[i]]);
    lemma_span_sum_singleton(s[i]);
}

/// Free-list accounting for one contiguous range of `total` bytes.
///
/// Carving is exact: a successful allocation of `size` bytes removes exactly
/// `size` bytes from the free total, and a successful release puts exactly
/// that many back.
pub struct FreeSpace {
    total: usize,
    spans: Vec<(usize, usize)>,
}

impl FreeSpace {
    /// The invariant every operation preserves.
    pub closed spec fn wf(&self) -> bool {
        spans_wf(self.spans@, self.total as int)
    }

    /// Size in bytes of the managed range.
    pub closed spec fn size(&self) -> int {
        self.total as int
    }

    /// Number of free bytes.
    pub closed spec fn free(&self) -> int {
        span_sum(self.spans@)
    }

    /// Offset a first-fit scan would return for this request, if any.
    pub closed spec fn fit_offset(&self, size: int, align: int) -> Option<int> {
        first_fit(self.spans@, size, align)
    }

    /// Whether some span can host `size` bytes at alignment `align`.
    pub open spec fn fits(&self, size: int, align: int) -> bool {
        self.fit_offset(size, align) is Some
    }

    /// Whether `[off, off + size)` lies in range and overlaps no free span,
    /// i.e. a release of that block would be accepted.
    pub closed spec fn can_release(&self, off: int, size: int) -> bool {
        &&& 0 <= off
        &&& off + size <= self.total
        &&& forall|i: int|
            0 <= i < self.spans@.len() ==> off + size <= (#[trigger] self.spans@[i]).0
                || self.spans@[i].0 + self.spans@[i].1 <= off
    }

    /// What a successful allocation promises: first-fit placement and exact
    /// accounting, with the carved block immediately releasable.
    pub open spec fn alloc_step(pre: FreeSpace, size: int, align: int, off: int, post: FreeSpace) -> bool {
        &&& pre.fit_offset(size, align) == Some(off)
        &&& post.wf()
        &&& post.size() == pre.size()
        &&& off % align == 0
        &&& 0 <= off && off + size <= pre.size()
        &&& post.free() == pre.free() - size
        &&& post.can_release(off, size)
    }

    /// What a successful release promises.
    pub open spec fn release_step(pre: FreeSpace, off: int, size: int, post: FreeSpace) -> bool {
        &&& pre.can_release(off, size)
        &&& post.wf()
        &&& post.size() == pre.size()
        &&& post.free() == pre.free() + size
    }

    pub proof fn lemma_free_in_range(&self)
        requires
            self.wf(),
        ensures
            0 <= self.free() <= self.size(),
    {
        lemma_span_sum_nonneg(self.spans@);
        lemma_span_sum_bounded(self.spans@, 0, self.total as int);
    }

    /// Law: an isolated allocate/release round trip — no operation in
    /// between — restores the free byte count exactly; moreover the release
    /// of the freshly carved block is always accepted.
    pub proof fn lemma_round_trip_free(
        h0: FreeSpace,
        h1: FreeSpace,
        h2: FreeSpace,
        size: int,
        align: int,
        off: int,
    )
        requires
            Self::alloc_step(h0, size, align, off, h1),
            Self::release_step(h1, off, size, h2),
        ensures
            h2.free() == h0.free(),
            h2.size() == h0.size(),
    {
    }

    /// A fresh range: all of `total` is one free span.
    pub fn new(total: usize) -> (r: FreeSpace)
        ensures
            r.wf(),
            r.size() == total,
            r.free() == total,
    {
        let mut spans: Vec<(usize, usize)> = Vec::new();
        if total > 0 {
            spans.push((0, total));
        }
        proof {
            if total > 0 {
                lemma_span_sum_singleton((0, total));
                assert(spans@ =~= seq![(0usize, total)]);
            }
        }
        FreeSpace { total, spans }
    }

    /// Number of free bytes, recomputed from the live span list.
    pub fn free_bytes(&self) -> (r: usize)
        requires
            self.wf(),
        ensures
            r == self.free(),
    {
        let n = self.spans.len();
        let mut acc: usize = 0;
        let mut i: usize = 0;
        while i < n
            invariant
                i <= n,
                n == self.spans@.len(),
                self.wf(),
                acc == span_sum(self.spans@.take(i as int)),
            decreases n - i,
        {
            proof {
                lemma_span_sum_around(self.spans@, i as int);
                lemma_span_sum_nonneg(self.spans@.skip(i as int + 1));
                self.lemma_free_in_range();
                assert(self.spans@.take(i as int + 1) =~= self.spans@.take(i as int)
                    + seq![self.spans@[i as int]]);
                lemma_span_sum_add(self.spans@.take(i as int), seq![self.spans@[i as int]]);
                lemma_span_sum_singleton(self.spans@[i as int]);
            }
            let span: (usize, usize) = self.spans[i];
            acc = acc + span.1;
            i = i + 1;
        }
        proof {
            assert(self.spans@.take(n as int) =~= self.spans@);
        }
        acc
    }

    /// First-fit allocation of `size` bytes at alignment `align`.
    ///
    /// Returns the chosen offset, or `None` when no span can host the
    /// request; the span list is untouched on failure.
    pub fn allocate(&mut self, size: usize, align: usize) -> (r: Option<usize>)
        requires
            old(self).wf(),
            align >= 1,
        ensures
            final(self).wf(),
            final(self).size() == old(self).size(),
            r is Some <==> old(self).fits(size as int, align as int),
            r is None ==> *final(self) == *old(self),
            r matches Some(off) ==> Self::alloc_step(
                *old(self),
                size as int,
                align as int,
                off as int,
                *final(self),
            ),
    {
        let n = self.spans.len();
        proof {
            assert(self.spans@.skip(0) =~= self.spans@);
        }
        let mut i: usize = 0;
        while i < n
            invariant
                i <= n,
                n == self.spans@.len(),
                *self == *old(self),
                self.wf(),
                align >= 1,
                first_fit(self.spans@, size as int, align as int) == first_fit(
                    self.spans@.skip(i as int),
                    size as int,
                    align as int,
                ),
            decreases n - i,
        {
            let span: (usize, usize) = self.spans[i];
            let off: usize = span.0;
            let len: usize = span.1;
            let pad: usize = (align - off % align) % align;
            proof {
                assert(self.spans@.skip(i as int)[0] == self.spans@[i as int]);
            }
            if pad <= len && size <= len - pad {
                let place: usize = off + pad;
                proof {
                    assert(first_fit(self.spans@.skip(i as int), size as int, align as int)
                        == Some(place as int));
                    assert(place as int % align as int == 0) by (nonlinear_arith)
                        requires
                            align >= 1,
                            off >= 0,
                            place as int == off as int + (align as int - off as int % align as int)
                                % align as int,
                    ;
                }
                let ghost pre = *self;
                let back_off: usize = place + size;
                let back_len: usize = len - pad - size;
                if pad > 0 && back_len > 0 {
                    self.spans[i] = (off, pad);
                    self.spans.insert(i + 1, (back_off, back_len));
                } else if pad > 0 {
                    self.spans[i] = (off, pad);
                } else if back_len > 0 {
                    self.spans[i] = (back_off, back_len);
                } else {
                    self.spans.remove(i);
                }
                proof {
                    Self::lemma_carve_ok(pre.spans@, self.spans@, i as int, size as int,
                        pad as int, self.total as int);
                }
                return Some(place);
            }
            proof {
                assert(self.spans@.skip(i as int).drop_first() =~= self.spans@.skip(i as int + 1));
            }
            i = i + 1;
        }
        proof {
            assert(self.spans@.skip(n as int) =~= Seq::<(usize, usize)>::empty());
        }
        None
    }

    /// Shared proof for the four carving cases of `alloc`: well-formedness,
    /// the exact sum change, and releasability of the carved block.
    proof fn lemma_carve_ok(
        pre: Seq<(usize, usize)>,
        post: Seq<(usize, usize)>,
        i: int,
        size: int,
        pad: int,
        total: int,
    )
        requires
            spans_wf(pre, total),
            total <= usize::MAX,
            0 <= i < pre.len(),
            0 <= pad,
            0 <= size,
            pad + size <= pre[i].1,
            ({
                let off = pre[i].0;
                let place = off + pad;
                let back_off = place + size;
                let back_len = pre[i].1 - pad - size;
                if pad > 0 && back_len > 0 {
                    post == pre.update(i, (off as usize, pad as usize)).insert(
                        i + 1,
                        (back_off as usize, back_len as usize),
                    )
                } else if pad > 0 {
                    post == pre.update(i, (off as usize, pad as usize))
                } else if back_len > 0 {
                    post == pre.update(i, (back_off as usize, back_len as usize))
                } else {
                    post == pre.remove(i)
                }
            }),
        ensures
            spans_wf(post, total),
            span_sum(post) == span_sum(pre) - size,
            ({
                let place = pre[i].0 + pad;
                forall|k: int|
                    0 <= k < post.len() ==> place + size <= (#[trigger] post[k]).0 || post[k].0
                        + post[k].1 <= place
            }),
    {
        let off = pre[i].0;
        let len = pre[i].1;
        let place = off + pad;
        let back_off = place + size;
        let back_len = len - pad - size;
        lemma_span_sum_around(pre, i);
        let front = (off as usize, pad as usize);
        let back = (back_off as usize, back_len as usize);
        if pad > 0 && back_len > 0 {
            assert(post =~= pre.take(i) + seq![front, back] + pre.skip(i + 1));
            lemma_span_sum_add(pre.take(i) + seq![front, back], pre.skip(i + 1));
            lemma_span_sum_add(pre.take(i), seq![front, back]);
            assert(seq![front, back].drop_first() =~= seq![back]);
            lemma_span_sum_singleton(back);
            assert(span_sum(seq![front, back]) == pad + back_len);
            assert forall|k: int| 0 <= k < post.len() implies #[trigger] post[k] == (if k < i {
                pre[k]
            } else if k == i {
                front
            } else if k == i + 1 {
                back
            } else {
                pre[k - 1]
            }) by {}
        } else if pad > 0 {
            assert(post =~= pre.take(i) + seq![front] + pre.skip(i + 1));
            lemma_span_sum_add(pre.take(i) + seq![front], pre.skip(i + 1));
            lemma_span_sum_add(pre.take(i), seq![front]);
            lemma_span_sum_singleton(front);
            assert forall|k: int| 0 <= k < post.len() implies #[trigger] post[k] == (if k == i {
                front
            } else {
                pre[k]
            }) by {}
        } else if back_len > 0 {
            assert(post =~= pre.take(i) + seq![back] + pre.skip(i + 1));
            lemma_span_sum_add(pre.take(i) + seq![back], pre.skip(i + 1));
            lemma_span_sum_add(pre.take(i), seq![back]);
            lemma_span_sum_singleton(back);
            assert forall|k: int| 0 <= k < post.len() implies #[trigger] post[k] == (if k == i {
                back
            } else {
                pre[k]
            }) by {}
        } else {
            assert(post =~= pre.take(i) + pre.skip(i + 1));
            lemma_span_sum_add(pre.take(i), pre.skip(i + 1));
            assert forall|k: int| 0 <= k < post.len() implies #[trigger] post[k] == (if k < i {
                pre[k]
            } else {
                pre[k + 1]
            }) by {}
        }
    }

    /// Free space never falls below a request that still fits.
    pub proof fn lemma_fits_free(&self, size: int, align: int)
        requires
            self.wf(),
            self.fits(size, align),
            0 <= size,
            align >= 1,
        ensures
            self.free() >= size,
    {
        lemma_first_fit_witness(self.spans@, size, align);
        let k = choose|k: int|
            0 <= k < self.spans@.len() && span_fit(#[trigger] self.spans@[k], size, align);
        lemma_span_sum_ge_elem(self.spans@, k);
    }

    /// Read-only probe: would `allocate(size, align)` succeed right now?
    pub fn would_fit(&self, size: usize, align: usize) -> (b: bool)
        requires
            self.wf(),
            align >= 1,
        ensures
            b == self.fits(size as int, align as int),
    {
        let n = self.spans.len();
        proof {
            assert(self.spans@.skip(0) =~= self.spans@);
        }
        let mut i: usize = 0;
        while i < n
            invariant
                i <= n,
                n == self.spans@.len(),
                self.wf(),
                align >= 1,
                first_fit(self.spans@, size as int, align as int) == first_fit(
                    self.spans@.skip(i as int),
                    size as int,
                    align as int,
                ),
            decreases n - i,
        {
            let span: (usize, usize) = self.spans[i];
            let pad: usize = (align - span.0 % align) % align;
            proof {
                assert(self.spans@.skip(i as int)[0] == self.spans@[i as int]);
            }
            if pad <= span.1 && size <= span.1 - pad {
                return true;
            }
            proof {
                assert(self.spans@.skip(i as int).drop_first() =~= self.spans@.skip(
                    i as int + 1,
                ));
            }
            i = i + 1;
        }
        proof {
            assert(self.spans@.skip(n as int) =~= Seq::<(usize, usize)>::empty());
        }
        false
    }

    /// Read-only probe: would `dealloc(off, size)` accept this block?
    pub fn would_release(&self, off: usize, size: usize) -> (b: bool)
        requires
            self.wf(),
        ensures
            b == self.can_release(off as int, size as int),
    {
        if size > self.total || off > self.total - size {
            return false;
        }
        let n = self.spans.len();
        let i: usize = Self::scan_past(&self.spans, off);
        if i < n {
            let span: (usize, usize) = self.spans[i];
            if off + size > span.0 {
                return false;
            }
        }
        proof {
            assert forall|k: int|
                0 <= k < self.spans@.len() implies off + size <= (#[trigger] self.spans@[k]).0
                || self.spans@[k].0 + self.spans@[k].1 <= off by {
                if k >= i as int {
                    assert(self.spans@[i as int].0 + self.spans@[i as int].1 <= self.spans@[k].0
                        || k == i as int);
                }
            }
        }
        true
    }

    /// Index of the first span that ends beyond `off` (spans are sorted, so
    /// every earlier span ends at or before `off`).
    fn scan_past(spans: &Vec<(usize, usize)>, off: usize) -> (i: usize)
        requires
            forall|k: int|
                0 <= k < spans@.len() ==> (#[trigger] spans@[k]).0 + spans@[k].1 <= usize::MAX,
        ensures
            i <= spans@.len(),
            forall|k: int| 0 <= k < i ==> (#[trigger] spans@[k]).0 + spans@[k].1 <= off,
            i < spans@.len() ==> spans@[i as int].0 + spans@[i as int].1 > off,
    {
        let n = spans.len();
        let mut i: usize = 0;
        while i < n
            invariant
                i <= n,
                n == spans@.len(),
                forall|k: int|
                    0 <= k < spans@.len() ==> (#[trigger] spans@[k]).0 + spans@[k].1
                        <= usize::MAX,
                forall|k: int| 0 <= k < i ==> (#[trigger] spans@[k]).0 + spans@[k].1 <= off,
            decreases n - i,
        {
            let span: (usize, usize) = spans[i];
            if span.0 + span.1 > off {
                return i;
            }
            i = i + 1;
        }
        i
    }

    /// Release the block `[off, off + size)` back to the free list.
    ///
    /// Accepted exactly when the block lies in range and overlaps no free
    /// span; adjacent spans are coalesced.  Rejection leaves the list
    /// untouched.
    pub fn dealloc(&mut self, off: usize, size: usize) -> (r: bool)
        requires
            old(self).wf(),
        ensures
            final(self).wf(),
            final(self).size() == old(self).size(),
            r == old(self).can_release(off as int, size as int),
            r ==> Self::release_step(*old(self), off as int, size as int, *final(self)),
            !r ==> *final(self) == *old(self),
    {
        if size > self.total || off > self.total - size {
            return false;
        }
        let n = self.spans.len();
        let i: usize = Self::scan_past(&self.spans, off);
        // all spans before index i end at or before `off`
        if i < n {
            let span: (usize, usize) = self.spans[i];
            if off + size > span.0 {
                // the block would overlap the first span ending beyond `off`
                return false;
            }
        }
        proof {
            assert forall|k: int|
                0 <= k < self.spans@.len() implies off + size <= (#[trigger] self.spans@[k]).0
                || self.spans@[k].0 + self.spans@[k].1 <= off by {
                if k >= i as int {
                    assert(self.spans@[i as int].0 + self.spans@[i as int].1 <= self.spans@[k].0
                        || k == i as int);
                }
            }
        }
        if size == 0 {
            return true;
        }
        let ghost pre = self.spans@;
        let merge_left: bool = i > 0 && {
            let prev: (usize, usize) = self.spans[i - 1];
            prev.0 + prev.1 == off
        };
        let merge_right: bool = i < n && {
            let span: (usize, usize) = self.spans[i];
            span.0 == off + size
        };
        if merge_left && merge_right {
            let prev: (usize, usize) = self.spans[i - 1];
            let next: (usize, usize) = self.spans[i];
            self.spans[i - 1] = (prev.0, prev.1 + size + next.1);
            self.spans.remove(i);
            proof {
                Self::lemma_release_merge_both(pre, self.spans@, i as int, off as int,
                    size as int, self.total as int);
            }
        } else if merge_left {
            let prev: (usize, usize) = self.spans[i - 1];
            self.spans[i - 1] = (prev.0, prev.1 + size);
            proof {
                Self::lemma_release_merge_left(pre, self.spans@, i as int, off as int,
                    size as int, self.total as int);
            }
        } else if merge_right {
            let next: (usize, usize) = self.spans[i];
            self.spans[i] = (off, size + next.1);
            proof {
                Self::lemma_release_merge_right(pre, self.spans@, i as int, off as int,
                    size as int, self.total as int);
            }
        } else {
            self.spans.insert(i, (off, size));
            proof {
                Self::lemma_release_insert(pre, self.spans@, i as int, off as int, size as int,
                    self.total as int);
            }
        }
        true
    }

    proof fn lemma_release_merge_both(
        pre: Seq<(usize, usize)>,
        post: Seq<(usize, usize)>,
        i: int,
        off: int,
        size: int,
        total: int,
    )
        requires
            spans_wf(pre, total),
            total <= usize::MAX,
            0 < i < pre.len(),
            1 <= size,
            off + size <= total,
            forall|k: int| 0 <= k < i ==> (#[trigger] pre[k]).0 + pre[k].1 <= off,
            forall|k: int| i <= k < pre.len() ==> off + size <= (#[trigger] pre[k]).0,
            pre[i - 1].0 + pre[i - 1].1 == off,
            pre[i].0 == off + size,
            post == pre.update(
                i - 1,
                (pre[i - 1].0, (pre[i - 1].1 + size + pre[i].1) as usize),
            ).remove(i),
        ensures
            spans_wf(post, total),
            span_sum(post) == span_sum(pre) + size,
    {
        let merged = (pre[i - 1].0, (pre[i - 1].1 + size + pre[i].1) as usize);
        assert(post =~= pre.take(i - 1) + seq![merged] + pre.skip(i + 1));
        lemma_span_sum_add(pre.take(i - 1) + seq![merged], pre.skip(i + 1));
        lemma_span_sum_add(pre.take(i - 1), seq![merged]);
        lemma_span_sum_singleton(merged);
        lemma_span_sum_around(pre, i - 1);
        assert(pre.skip(i) =~= seq![pre[i]] + pre.skip(i + 1));
        lemma_span_sum_add(seq![pre[i]], pre.skip(i + 1));
        lemma_span_sum_singleton(pre[i]);
        assert forall|k: int| 0 <= k < post.len() implies #[trigger] post[k] == (if k < i - 1 {
            pre[k]
        } else if k == i - 1 {
            merged
        } else {
            pre[k + 1]
        }) by {}
    }

    proof fn lemma_release_merge_left(
        pre: Seq<(usize, usize)>,
        post: Seq<(usize, usize)>,
        i: int,
        off: int,
        size: int,
        total: int,
    )
        requires
            spans_wf(pre, total),
            total <= usize::MAX,
            0 < i <= pre.len(),
            1 <= size,
            off + size <= total,
            forall|k: int| 0 <= k < i ==> (#[trigger] pre[k]).0 + pre[k].1 <= off,
            forall|k: int| i <= k < pre.len() ==> off + size <= (#[trigger] pre[k]).0,
            pre[i - 1].0 + pre[i - 1].1 == off,
            post == pre.update(i - 1, (pre[i - 1].0, (pre[i - 1].1 + size) as usize)),
        ensures
            spans_wf(post, total),
            span_sum(post) == span_sum(pre) + size,
    {
        let merged = (pre[i - 1].0, (pre[i - 1].1 + size) as usize);
        assert(post =~= pre.take(i - 1) + seq![merged] + pre.skip(i));
        lemma_span_sum_add(pre.take(i - 1) + seq![merged], pre.skip(i));
        lemma_span_sum_add(pre.take(i - 1), seq![merged]);
        lemma_span_sum_singleton(merged);
        lemma_span_sum_around(pre, i - 1);
        assert forall|k: int| 0 <= k < post.len() implies #[trigger] post[k] == (if k == i - 1 {
            merged
        } else {
            pre[k]
        }) by {}
    }

    proof fn lemma_release_merge_right(
        pre: Seq<(usize, usize)>,
        post: Seq<(usize, usize)>,
        i: int,
        off: int,
        size: int,
        total: int,
    )
        requires
            spans_wf(pre, total),
            total <= usize::MAX,
            0 <= i < pre.len(),
            1 <= size,
            0 <= off,
            off + size <= total,
            forall|k: int| 0 <= k < i ==> (#[trigger] pre[k]).0 + pre[k].1 <= off,
            forall|k: int| i <= k < pre.len() ==> off + size <= (#[trigger] pre[k]).0,
            pre[i].0 == off + size,
            post == pre.update(i, (off as usize, (size + pre[i].1) as usize)),
        ensures
            spans_wf(post, total),
            span_sum(post) == span_sum(pre) + size,
    {
        let merged = (off as usize, (size + pre[i].1) as usize);
        assert(post =~= pre.take(i) + seq![merged] + pre.skip(i + 1));
        lemma_span_sum_add(pre.take(i) + seq![merged], pre.skip(i + 1));
        lemma_span_sum_add(pre.take(i), seq![merged]);
        lemma_span_sum_singleton(merged);
        lemma_span_sum_around(pre, i);
        assert forall|k: int| 0 <= k < post.len() implies #[trigger] post[k] == (if k == i {
            merged
        } else {
            pre[k]
        }) by {}
    }

    proof fn lemma_release_insert(
        pre: Seq<(usize, usize)>,
        post: Seq<(usize, usize)>,
        i: int,
        off: int,
        size: int,
        total: int,
    )
        requires
            spans_wf(pre, total),
            total <= usize::MAX,
            0 <= i <= pre.len(),
            1 <= size,
            0 <= off,
            off + size <= total,
            forall|k: int| 0 <= k < i ==> (#[trigger] pre[k]).0 + pre[k].1 <= off,
            forall|k: int| i <= k < pre.len() ==> off + size <= (#[trigger] pre[k]).0,
            post == pre.insert(i, (off as usize, size as usize)),
        ensures
            spans_wf(post, total),
            span_sum(post) == span_sum(pre) + size,
    {
        let block = (off as usize, size as usize);
        assert(post =~= pre.take(i) + seq![block] + pre.skip(i));
        lemma_span_sum_add(pre.take(i) + seq![block], pre.skip(i));
        lemma_span_sum_add(pre.take(i), seq![block]);
        lemma_span_sum_singleton(block);
        assert(pre =~= pre.take(i) + pre.skip(i));
        lemma_span_sum_add(pre.take(i), pre.skip(i));
        assert forall|k: int| 0 <= k < post.len() implies #[trigger] post[k] == (if k < i {
            pre[k]
        } else if k == i {
            block
        } else {
            pre[k - 1]
        }) by {}
    }
}

} // verus!
