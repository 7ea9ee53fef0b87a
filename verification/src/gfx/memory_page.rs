//! Bookkeeping of the allocations that live inside one page of device memory.
//!
//! A page has a fixed size; allocations are half-open byte ranges `[offset, offset + size)`
//! kept sorted by offset and pairwise disjoint. New allocations are placed first-fit.

use std::cmp::Ordering;
use std::ops::Range;
use vstd::arithmetic::div_mod::lemma_mod_adds;
use vstd::prelude::*;
use vstd::std_specs::cmp::{PartialEqSpecImpl, PartialOrdSpecImpl};
use vstd::std_specs::convert::FromSpecImpl;

verus! {

/// One allocated byte range `[offset, offset + size)` inside a memory page.
#[derive(Debug, Clone, Copy)]
pub struct Allocation {
    pub offset: u64,
    pub size: u64,
}

impl Allocation {
    pub fn new(offset: u64, size: u64) -> (a: Allocation)
        ensures
            a.offset == offset,
            a.size == size,
    {
        Allocation { offset, size }
    }

    /// The first byte after this allocation.
    pub open spec fn end(self) -> int {
        self.offset + self.size
    }
}

/// Allocations are told apart, and ordered, by their offset alone.
impl PartialEq for Allocation {
    fn eq(&self, other: &Allocation) -> (r: bool) {
        self.offset == other.offset
    }
}

impl PartialEqSpecImpl for Allocation {
    open spec fn obeys_eq_spec() -> bool {
        true
    }

    open spec fn eq_spec(&self, other: &Allocation) -> bool {
        self.offset == other.offset
    }
}

impl PartialOrd for Allocation {
    fn partial_cmp(&self, other: &Allocation) -> (r: Option<Ordering>) {
        if self.offset < other.offset {
            Some(Ordering::Less)
        } else if self.offset == other.offset {
            Some(Ordering::Equal)
        } else {
            Some(Ordering::Greater)
        }
    }
}

impl PartialOrdSpecImpl for Allocation {
    open spec fn obeys_partial_cmp_spec() -> bool {
        true
    }

    open spec fn partial_cmp_spec(&self, other: &Allocation) -> Option<Ordering> {
        if self.offset < other.offset {
            Some(Ordering::Less)
        } else if self.offset == other.offset {
            Some(Ordering::Equal)
        } else {
            Some(Ordering::Greater)
        }
    }
}

/// The byte range an allocation covers.
impl<'a> From<&'a Allocation> for Range<u64> {
    fn from(a: &'a Allocation) -> (r: Range<u64>) {
        a.offset..a.offset.wrapping_add(a.size)
    }
}

impl<'a> FromSpecImpl<&'a Allocation> for Range<u64> {
    open spec fn obeys_from_spec() -> bool {
        true
    }

    /// `offset..offset + size` (modulo 2^64 where the sum does not fit).
    open spec fn from_spec(a: &'a Allocation) -> Range<u64> {
        Range {
            start: a.offset,
            end: (if a.offset + a.size <= u64::MAX {
                a.offset + a.size
            } else {
                a.offset + a.size - 0x1_0000_0000_0000_0000
            }) as u64,
        }
    }
}

/// Why an allocation could not be placed in a page.
#[derive(Debug, Clone, Copy, PartialEq, Eq)]
pub enum AllocationError {
    /// This Memory Page has not enough available coherent storage space
    OutOfMemory,
}

/// The range `[h, h + n)` and the allocation `a` do not overlap.
pub open spec fn disjoint_from(a: Allocation, h: int, n: int) -> bool {
    h + n <= a.offset || a.end() <= h
}

/// The range `[h, h + n)` overlaps none of the first `k` allocations of `s`.
pub open spec fn fits_among(s: Seq<Allocation>, k: int, h: int, n: int) -> bool {
    forall|j: int| 0 <= j < k ==> #[trigger] disjoint_from(s[j], h, n)
}

/// The range `[h, h + n)` overlaps none of the allocations of `s`.
pub open spec fn fits_at(s: Seq<Allocation>, h: int, n: int) -> bool {
    fits_among(s, s.len() as int, h, n)
}

/// Every allocation is non-empty, and the allocations are sorted by offset and pairwise
/// disjoint: each one ends no later than the next one starts.
pub open spec fn sorted_disjoint(s: Seq<Allocation>) -> bool {
    &&& forall|i: int| 0 <= i < s.len() ==> #[trigger] s[i].size > 0
    &&& forall|i: int, j: int| 0 <= i < j < s.len() ==> #[trigger] s[i].end() <= #[trigger] s[j].offset
}

/// Every allocation of `s` lies inside a page of `size` bytes.
pub open spec fn within(s: Seq<Allocation>, size: int) -> bool {
    forall|i: int| 0 <= i < s.len() ==> #[trigger] s[i].end() <= size
}

/// The allocations of a page of `size` bytes are well formed.
pub open spec fn valid_layout(s: Seq<Allocation>, size: int) -> bool {
    sorted_disjoint(s) && within(s, size)
}

/// `[h, h + n)` is the lowest range of `n` bytes, starting at or above zero, that overlaps
/// none of the allocations of `s`.
pub open spec fn is_first_fit(s: Seq<Allocation>, h: int, n: int) -> bool {
    &&& 0 <= h
    &&& fits_at(s, h, n)
    &&& forall|g: int| 0 <= g < h ==> !#[trigger] fits_at(s, g, n)
}

/// No range of `n` bytes inside a page of `size` bytes overlaps none of the allocations `s`.
pub open spec fn no_room(s: Seq<Allocation>, size: int, n: int) -> bool {
    forall|h: int| 0 <= h && h + n <= size ==> !#[trigger] fits_at(s, h, n)
}

/// `after` is `before` with `a` inserted at some position.
pub open spec fn placed(before: Seq<Allocation>, after: Seq<Allocation>, a: Allocation) -> bool {
    exists|k: int| 0 <= k <= before.len() && after == #[trigger] before.insert(k, a)
}

/// `after` is `before` without the allocation that starts at offset `o`.
pub open spec fn released(before: Seq<Allocation>, after: Seq<Allocation>, o: u64) -> bool {
    exists|i: int| 0 <= i < before.len() && before[i].offset == o && after == #[trigger] before.remove(i)
}

/// Every allocation of `s` starts at, and spans, a multiple of `m` bytes.
pub open spec fn aligned_layout(s: Seq<Allocation>, m: int) -> bool {
    forall|i: int| 0 <= i < s.len() ==> (#[trigger] s[i].offset as int) % m == 0 && (s[i].size as int) % m == 0
}

/// The lowest offset at which a range fits is zero or the end of an allocation.
proof fn lemma_first_fit_is_an_end(s: Seq<Allocation>, h: int, n: int)
    requires
        is_first_fit(s, h, n),
        n > 0,
    ensures
        h == 0 || exists|j: int| 0 <= j < s.len() && #[trigger] s[j].end() == h,
{
    if h > 0 {
        assert(!fits_at(s, h - 1, n));
        let j = choose|j: int| 0 <= j < s.len() && !#[trigger] disjoint_from(s[j], h - 1, n);
        assert(disjoint_from(s[j], h, n));
        assert(s[j].end() == h);
    }
}

/// Where every allocation is aligned to `m`, so is the lowest offset at which a range fits.
pub proof fn lemma_first_fit_aligned(s: Seq<Allocation>, h: int, n: int, m: int)
    requires
        is_first_fit(s, h, n),
        aligned_layout(s, m),
        n > 0,
        m > 0,
    ensures
        h % m == 0,
{
    lemma_first_fit_is_an_end(s, h, n);
    if h != 0 {
        let j = choose|j: int| 0 <= j < s.len() && #[trigger] s[j].end() == h;
        let a = s[j].offset as int;
        let b = s[j].size as int;
        assert(a % m == 0 && b % m == 0);
        lemma_mod_adds(a, b, m);
    }
}

/// Placing an aligned allocation among aligned ones keeps them all aligned.
pub proof fn lemma_placed_aligned(before: Seq<Allocation>, after: Seq<Allocation>, a: Allocation, m: int)
    requires
        aligned_layout(before, m),
        placed(before, after, a),
        (a.offset as int) % m == 0,
        (a.size as int) % m == 0,
    ensures
        aligned_layout(after, m),
{
    let k = choose|k: int| 0 <= k <= before.len() && after == #[trigger] before.insert(k, a);
    assert forall|i: int| 0 <= i < after.len() implies (#[trigger] after[i].offset as int) % m == 0 && (after[i].size as int) % m == 0 by {
        if i < k {
            assert(after[i] == before[i]);
        } else if i > k {
            assert(after[i] == before[i - 1]);
        }
    }
}

/// Freeing an allocation keeps the rest aligned.
pub proof fn lemma_released_aligned(before: Seq<Allocation>, after: Seq<Allocation>, o: u64, m: int)
    requires
        aligned_layout(before, m),
        released(before, after, o),
    ensures
        aligned_layout(after, m),
{
    let i = choose|i: int| 0 <= i < before.len() && before[i].offset == o && after == #[trigger] before.remove(i);
    assert forall|x: int| 0 <= x < after.len() implies (#[trigger] after[x].offset as int) % m == 0 && (after[x].size as int) % m == 0 by {
        if x >= i {
            assert(after[x] == before[x + 1]);
        }
    }
}

/// In a sorted, disjoint layout, offsets strictly increase with the index.
proof fn lemma_offsets_increase(s: Seq<Allocation>, i: int, j: int)
    requires
        sorted_disjoint(s),
        0 <= i < j < s.len(),
    ensures
        s[i].offset < s[j].offset,
        s[i].end() <= s[j].offset,
{
    assert(s[i].size > 0);
    assert(s[i].end() <= s[j].offset);
}

/// Two different allocations of a well-formed page never overlap, and each lies inside the
/// page.
pub proof fn lemma_allocations_never_overlap(s: Seq<Allocation>, size: int, i: int, j: int)
    requires
        valid_layout(s, size),
        0 <= i < s.len(),
        0 <= j < s.len(),
        i != j,
    ensures
        s[i].end() <= s[j].offset || s[j].end() <= s[i].offset,
        0 <= s[i].offset && s[i].end() <= size,
{
    if i < j {
        assert(s[i].end() <= s[j].offset);
    } else {
        assert(s[j].end() <= s[i].offset);
    }
}

/// Inserting a non-empty allocation that fits, at the position that keeps offsets sorted,
/// keeps the layout valid.
proof fn lemma_insert_keeps_layout(s: Seq<Allocation>, pos: int, a: Allocation, size: int)
    requires
        valid_layout(s, size),
        0 <= pos <= s.len(),
        a.size > 0,
        a.end() <= size,
        fits_at(s, a.offset as int, a.size as int),
        forall|j: int| 0 <= j < pos ==> #[trigger] s[j].offset < a.offset,
        forall|j: int| pos <= j < s.len() ==> #[trigger] s[j].offset >= a.offset,
    ensures
        valid_layout(s.insert(pos, a), size),
{
    let t = s.insert(pos, a);
    assert forall|j: int| 0 <= j < pos implies #[trigger] s[j].end() <= a.offset by {
        assert(disjoint_from(s[j], a.offset as int, a.size as int));
    }
    assert forall|j: int| pos <= j < s.len() implies a.end() <= #[trigger] s[j].offset by {
        assert(disjoint_from(s[j], a.offset as int, a.size as int));
        assert(s[j].size > 0);
    }
    assert forall|x: int| 0 <= x < t.len() implies #[trigger] t[x].size > 0 && t[x].end() <= size by {
        if x < pos {
            assert(t[x] == s[x]);
        } else if x > pos {
            assert(t[x] == s[x - 1]);
        }
    }
    assert forall|x: int, y: int| 0 <= x < y < t.len() implies #[trigger] t[x].end() <= #[trigger] t[y].offset by {
        if y < pos {
            assert(t[x] == s[x] && t[y] == s[y]);
        } else if y == pos {
            assert(t[x] == s[x]);
        } else if x < pos {
            assert(t[x] == s[x] && t[y] == s[y - 1]);
            assert(s[x].end() <= a.offset);
            assert(a.end() <= s[y - 1].offset);
        } else if x == pos {
            assert(t[y] == s[y - 1]);
        } else {
            assert(t[x] == s[x - 1] && t[y] == s[y - 1]);
        }
    }
}

/// Removing an allocation keeps the layout valid.
proof fn lemma_remove_keeps_layout(s: Seq<Allocation>, i: int, size: int)
    requires
        valid_layout(s, size),
        0 <= i < s.len(),
    ensures
        valid_layout(s.remove(i), size),
{
    let t = s.remove(i);
    assert forall|x: int| 0 <= x < t.len() implies #[trigger] t[x].size > 0 && t[x].end() <= size by {
        if x >= i {
            assert(t[x] == s[x + 1]);
        }
    }
    assert forall|x: int, y: int| 0 <= x < y < t.len() implies #[trigger] t[x].end() <= #[trigger] t[y].offset by {
        if y < i {
            assert(t[x] == s[x] && t[y] == s[y]);
        } else if x < i {
            assert(t[x] == s[x] && t[y] == s[y + 1]);
        } else {
            assert(t[x] == s[x + 1] && t[y] == s[y + 1]);
        }
    }
}

/// Freeing the allocation that a successful `try_alloc` placed gives back the allocations
/// that the page held before: a `dealloc` undoes a `try_alloc`.
pub proof fn lemma_dealloc_undoes_alloc(
    before: Seq<Allocation>,
    middle: Seq<Allocation>,
    after: Seq<Allocation>,
    a: Allocation,
    size: int,
)
    requires
        placed(before, middle, a),
        valid_layout(middle, size),
        released(middle, after, a.offset),
    ensures
        after == before,
{
    let k = choose|k: int| 0 <= k <= before.len() && middle == #[trigger] before.insert(k, a);
    let i = choose|i: int|
        0 <= i < middle.len() && middle[i].offset == a.offset && after == #[trigger] middle.remove(i);
    assert(middle[k] == a);
    if i < k {
        lemma_offsets_increase(middle, i, k);
    } else if k < i {
        lemma_offsets_increase(middle, k, i);
    }
    assert(i == k);
    assert(after =~= before);
}

/// A page that holds no allocations takes any request that is not larger than the page,
/// and places it at offset zero.
pub proof fn lemma_empty_page_first_fit(n: int)
    requires
        n > 0,
    ensures
        is_first_fit(Seq::<Allocation>::empty(), 0, n),
{
}

/// Keeps track of a page size and the allocations made inside the page.
#[derive(Debug)]
pub struct Allocations {
    size: u64,
    allocations: Vec<Allocation>,
}

impl View for Allocations {
    type V = Seq<Allocation>;

    closed spec fn view(&self) -> Seq<Allocation> {
        self.allocations@
    }
}

impl Allocations {
    /// The size of the page in bytes.
    pub closed spec fn page_size(&self) -> u64 {
        self.size
    }

    /// The allocations are sorted, disjoint, non-empty and inside the page.
    pub open spec fn wf(&self) -> bool {
        valid_layout(self@, self.page_size() as int)
    }

    /// An empty page of `size` bytes.
    pub fn new(size: u64) -> (r: Allocations)
        ensures
            r.wf(),
            r.page_size() == size,
            r@ == Seq::<Allocation>::empty(),
    {
        Allocations { size, allocations: Vec::new() }
    }

    /// The size of the page in bytes.
    pub fn get_size(&self) -> (r: u64)
        ensures
            r == self.page_size(),
    {
        self.size
    }

    /// The allocations of this page, sorted by offset.
    pub fn allocations(&self) -> (r: &Vec<Allocation>)
        ensures
            r@ == self@,
    {
        &self.allocations
    }

    /// Two byte ranges are compatible when neither starts before the other one ends.
    pub fn is_compatible(first: Range<u64>, second: Range<u64>) -> (r: bool)
        requires
            first.end >= 1,
            second.end >= 1,
        ensures
            r == (first.end - 1 < second.start || second.end - 1 < first.start),
    {
        first.end - 1 < second.start || second.end - 1 < first.start
    }

    /// The position of the allocation that starts at `at_offset`, if there is one.
    pub fn position(&self, at_offset: u64) -> (r: Option<usize>)
        ensures
            match r {
                Some(p) => p < self@.len() && self@[p as int].offset == at_offset
                    && forall|j: int| 0 <= j < p ==> #[trigger] self@[j].offset != at_offset,
                None => forall|j: int| 0 <= j < self@.len() ==> #[trigger] self@[j].offset != at_offset,
            },
    {
        let mut i: usize = 0;
        while i < self.allocations.len()
            invariant
                0 <= i <= self@.len(),
                self@ == self.allocations@,
                forall|j: int| 0 <= j < i ==> #[trigger] self@[j].offset != at_offset,
            decreases self@.len() - i,
        {
            if self.allocations[i].offset == at_offset {
                return Some(i);
            }
            i = i + 1;
        }
        None
    }

    /// The number of allocations whose offset lies below `offset`: where an allocation that
    /// starts at `offset` belongs in the sorted list.
    fn insertion_point(&self, offset: u64) -> (pos: usize)
        requires
            self.wf(),
        ensures
            pos <= self@.len(),
            forall|j: int| 0 <= j < pos ==> #[trigger] self@[j].offset < offset,
            forall|j: int| pos <= j < self@.len() ==> #[trigger] self@[j].offset >= offset,
    {
        let mut lo: usize = 0;
        let mut hi: usize = self.allocations.len();
        while lo < hi
            invariant
                self.wf(),
                0 <= lo <= hi <= self@.len(),
                self@ == self.allocations@,
                forall|j: int| 0 <= j < lo ==> #[trigger] self@[j].offset < offset,
                forall|j: int| hi <= j < self@.len() ==> #[trigger] self@[j].offset >= offset,
            decreases hi - lo,
        {
            let mid = lo + (hi - lo) / 2;
            if self.allocations[mid].offset < offset {
                proof {
                    assert forall|j: int| 0 <= j <= mid implies #[trigger] self@[j].offset < offset by {
                        if j < mid {
                            lemma_offsets_increase(self@, j, mid as int);
                        }
                    }
                }
                lo = mid + 1;
            } else {
                proof {
                    assert forall|j: int| mid <= j < self@.len() implies #[trigger] self@[j].offset >= offset by {
                        if j > mid {
                            lemma_offsets_increase(self@, mid as int, j);
                        }
                    }
                }
                hi = mid;
            }
        }
        lo
    }

    /// The lowest offset at which `n` bytes overlap none of the allocations; the range may
    /// end beyond the page.
    fn first_fit(&self, n: u64) -> (head: u64)
        requires
            self.wf(),
            n > 0,
        ensures
            head <= self.page_size(),
            is_first_fit(self@, head as int, n as int),
    {
        let ghost s = self@;
        let ghost ni = n as int;
        // This is essentially the resulting offset
        let mut head: u64 = 0;
        let len = self.allocations.len();
        let mut i: usize = 0;
        while i < len
            invariant
                self.wf(),
                self@ == s,
                self@ == self.allocations@,
                len == s.len(),
                0 <= i <= len,
                ni == n,
                n > 0,
                head <= self.page_size(),
                fits_among(s, i as int, head as int, ni),
                forall|h: int| 0 <= h < head ==> !#[trigger] fits_among(s, i as int, h, ni),
            decreases len - i,
        {
            let a_offset = self.allocations[i].offset;
            let a_size = self.allocations[i].size;
            proof {
                assert(s[i as int].end() <= self.page_size());
            }
            let a_end = a_offset + a_size;
            let compatible = match head.checked_add(n) {
                Some(end) => Self::is_compatible(head..end, a_offset..a_end),
                None => a_end <= head,
            };
            proof {
                assert(compatible == disjoint_from(s[i as int], head as int, ni));
            }
            if !compatible {
                // the allocations are sorted by offset, so the range may only start after `a`
                proof {
                    assert forall|j: int| 0 <= j < i + 1 implies #[trigger] disjoint_from(
                        s[j],
                        a_end as int,
                        ni,
                    ) by {
                        if j < i {
                            assert(s[j].end() <= s[i as int].offset);
                        }
                    }
                    assert forall|h: int| 0 <= h < a_end implies !#[trigger] fits_among(
                        s,
                        i + 1,
                        h,
                        ni,
                    ) by {
                        if h < head {
                            assert(!fits_among(s, i as int, h, ni));
                            let j = choose|j: int| 0 <= j < i && !#[trigger] disjoint_from(s[j], h, ni);
                            assert(!disjoint_from(s[j], h, ni));
                        } else {
                            assert(!disjoint_from(s[i as int], h, ni));
                        }
                    }
                }
                head = a_end;
            } else {
                proof {
                    assert forall|h: int| 0 <= h < head implies !#[trigger] fits_among(
                        s,
                        i + 1,
                        h,
                        ni,
                    ) by {
                        assert(!fits_among(s, i as int, h, ni));
                        let j = choose|j: int| 0 <= j < i && !#[trigger] disjoint_from(s[j], h, ni);
                        assert(!disjoint_from(s[j], h, ni));
                    }
                }
            }
            i = i + 1;
        }
        proof {
            assert forall|g: int| 0 <= g < head implies !#[trigger] fits_at(s, g, ni) by {
                assert(!fits_among(s, len as int, g, ni));
            }
        }
        head
    }

    /// Whether some range of `n` bytes inside the page overlaps none of the allocations.
    pub fn has_room(&self, n: u64) -> (r: bool)
        requires
            self.wf(),
            n > 0,
        ensures
            r == !no_room(self@, self.page_size() as int, n as int),
    {
        let head = self.first_fit(n);
        if n <= self.size - head {
            true
        } else {
            proof {
                assert forall|h: int| 0 <= h && h + n <= self.page_size() implies !#[trigger] fits_at(
                    self@,
                    h,
                    n as int,
                ) by {
                    assert(h < head);
                }
            }
            false
        }
    }

    /// Places an allocation of `allocation_size` bytes at the lowest offset where it overlaps
    /// no other allocation, and returns that offset; fails when that range would not end
    /// inside the page.
    pub fn try_alloc(&mut self, allocation_size: u64) -> (r: Result<u64, AllocationError>)
        requires
            old(self).wf(),
            allocation_size > 0,
        ensures
            final(self).wf(),
            final(self).page_size() == old(self).page_size(),
            match r {
                Ok(head) => {
                    &&& is_first_fit(old(self)@, head as int, allocation_size as int)
                    &&& head + allocation_size <= old(self).page_size()
                    &&& placed(old(self)@, final(self)@, Allocation { offset: head, size: allocation_size })
                },
                Err(e) => {
                    &&& e == AllocationError::OutOfMemory
                    &&& *final(self) == *old(self)
                    &&& no_room(old(self)@, old(self).page_size() as int, allocation_size as int)
                },
            },
    {
        let n = allocation_size;
        let ghost s = self@;
        let head = self.first_fit(n);
        if n <= self.size - head {
            let allocation = Allocation { offset: head, size: n };
            let pos = self.insertion_point(head);
            proof {
                lemma_insert_keeps_layout(s, pos as int, allocation, self.page_size() as int);
            }
            self.allocations.insert(pos, allocation);
            proof {
                assert(self@ == s.insert(pos as int, allocation));
            }
            Ok(head)
        } else {
            proof {
                assert forall|h: int| 0 <= h && h + n <= self.page_size() implies !#[trigger] fits_at(
                    s,
                    h,
                    n as int,
                ) by {
                    assert(h < head);
                }
            }
            Err(AllocationError::OutOfMemory)
        }
    }

    /// Frees the allocation that starts at `at_offset`.
    pub fn dealloc(&mut self, at_offset: u64)
        requires
            old(self).wf(),
            exists|i: int| 0 <= i < old(self)@.len() && #[trigger] old(self)@[i].offset == at_offset,
        ensures
            final(self).wf(),
            final(self).page_size() == old(self).page_size(),
            released(old(self)@, final(self)@, at_offset),
    {
        let ghost s = self@;
        match self.position(at_offset) {
            Some(position) => {
                proof {
                    lemma_remove_keeps_layout(s, position as int, self.page_size() as int);
                }
                // this cannot destroy the sorting of the allocations array
                self.allocations.remove(position);
                proof {
                    assert(self@ == s.remove(position as int));
                }
            },
            None => {
                proof {
                    let i = choose|i: int| 0 <= i < s.len() && #[trigger] s[i].offset == at_offset;
                    assert(s[i].offset != at_offset);
                }
            },
        }
    }
}

} // verus!
