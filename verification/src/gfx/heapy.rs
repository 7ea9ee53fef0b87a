//! Heapy: the device-memory allocation bookkeeping of the renderer.
//!
//! Memory is handed out from pages; each memory type has its own pages. A request is rounded
//! up to the device's minimum alignment and placed first-fit in the first page that has room,
//! in page order; when no page has room a new page is opened for it.

use crate::gfx::arena::{
    arena_get, arena_indices, arena_insert, arena_new, arena_order, arena_page_mut, arena_pages,
};
use crate::gfx::memory_page::{
    aligned_layout, is_first_fit, lemma_dealloc_undoes_alloc, lemma_first_fit_aligned,
    lemma_placed_aligned, lemma_released_aligned, lemma_empty_page_first_fit, no_room, placed,
    released, Allocation, Allocations,
};
use crate::resource::buffer::MemoryType;
use generational_arena::{Arena, Index};
use vstd::arithmetic::power2::{
    lemma2_to64, lemma2_to64_rest, lemma_pow2_strictly_increases, lemma_pow2_unfold, pow2,
};
use vstd::bits::lemma_u64_low_bits_mask_is_mod;
use vstd::prelude::*;

verus! {

/// Rounds `value` up with the mask of `multiple_of - 1`; for a power of two this is the
/// smallest multiple of `multiple_of` that is not below `value`.
pub open spec fn round_up_spec(value: u64, multiple_of: u64) -> u64 {
    ((value + multiple_of - 1) as u64) & !((multiple_of - 1) as u64)
}

/// `m` is a power of two.
pub open spec fn is_power_of_two(m: u64) -> bool {
    m >= 1 && m & ((m - 1) as u64) == 0
}

/// A power of two that fits in a `u64` is `2^n` for some `n < 64`.
proof fn lemma_power_of_two_exponent(m: u64) -> (n: nat)
    requires
        is_power_of_two(m),
    ensures
        n < 64,
        pow2(n) == m,
    decreases m,
{
    if m == 1 {
        lemma2_to64();
        0
    } else {
        let y = (m - 1) as u64;
        let h = m / 2;
        assert(m % 2 == 0 && h >= 1 && h & ((h - 1) as u64) == 0 && h <= 0x7fff_ffff_ffff_ffff)
            by (bit_vector)
            requires
                m > 1,
                y == m - 1,
                m & y == 0,
                h == m / 2,
        ;
        let k = lemma_power_of_two_exponent(h);
        lemma_pow2_unfold(k + 1);
        if k >= 63 {
            lemma2_to64_rest();
            if k > 63 {
                lemma_pow2_strictly_increases(63, k);
            }
        }
        k + 1
    }
}

/// Masking off the low bits below a power of two leaves a multiple of it.
proof fn lemma_mask_mod(r: u64, m: u64)
    requires
        is_power_of_two(m),
        r & ((m - 1) as u64) == 0,
    ensures
        r % m == 0,
{
    let n = lemma_power_of_two_exponent(m);
    lemma_u64_low_bits_mask_is_mod(r, n);
}

proof fn lemma_round_up(value: u64, m: u64)
    requires
        m >= 1,
        value + m - 1 <= u64::MAX,
    ensures
        round_up_spec(value, m) >= 1 || value == 0,
        is_power_of_two(m) ==> {
            let r = round_up_spec(value, m);
            r % m == 0 && value <= r && r < value + m
        },
{
    let x = (value + m - 1) as u64;
    let y = (m - 1) as u64;
    let r = x & !y;
    assert(value >= 1 ==> r >= 1) by (bit_vector)
        requires
            x == value + m - 1,
            y == m - 1,
            m >= 1,
            r == x & !y,
    ;
    assert(r & y == 0 && r <= x && x - r <= y) by (bit_vector)
        requires
            r == x & !y,
    ;
    if is_power_of_two(m) {
        lemma_mask_mod(r, m);
    }
}

/// Rounds `value` up to the nearest multiple of `multiple_of`, which is meant to be a power
/// of two.
pub fn round_up_to_nearest_multiple(value: u64, multiple_of: u64) -> (r: u64)
    requires
        multiple_of >= 1,
        value + multiple_of - 1 <= u64::MAX,
    ensures
        r == round_up_spec(value, multiple_of),
        value >= 1 ==> r >= 1,
        is_power_of_two(multiple_of) ==> r % multiple_of == 0 && value <= r && r < value
            + multiple_of,
{
    proof {
        lemma_round_up(value, multiple_of);
    }
    (value + (multiple_of - 1)) & !(multiple_of - 1)
}

/// Memory property bit: device local memory on the GPU.
pub const DEVICE_LOCAL: u16 = 0x1;

/// Memory property bit: memory the CPU can map.
pub const CPU_VISIBLE: u16 = 0x2;

/// Memory property bit: CPU-GPU coherent memory.
pub const COHERENT: u16 = 0x4;

/// A new page holds at least this many multiples of the minimum alignment.
pub const BLOCK_SIZE: u64 = 20;

/// One memory type of the device: its property bits and the heap it draws from.
#[derive(Debug, Clone, Copy, PartialEq, Eq, Structural)]
pub struct MemoryTypeInfo {
    pub properties: u16,
    pub heap_index: usize,
}

/// The memory type that the pages of one `MemoryType` are allocated from.
#[derive(Debug, Clone, Copy, PartialEq, Eq, Structural)]
pub struct PageInfo {
    /// Position of the memory type among the device's memory types.
    pub id: usize,
    pub heap_size: u64,
    pub properties: u16,
}

/// Why no page info could be found for a set of memory properties.
#[derive(Debug, Clone, Copy, PartialEq, Eq, Structural)]
pub enum PageInfoError {
    /// No memory type has all the requested properties.
    NoMemoryType,
    /// The memory type names a heap that the device does not list.
    InvalidHeapIndex,
}

/// The memory type `t` has every property bit of `props`.
pub open spec fn has_properties(t: MemoryTypeInfo, props: u16) -> bool {
    t.properties & props == props
}

/// What looking up the first memory type with properties `props` gives.
pub open spec fn page_info_spec(types: Seq<MemoryTypeInfo>, heaps: Seq<u64>, props: u16) -> Result<
    PageInfo,
    PageInfoError,
> {
    if exists|i: int| 0 <= i < types.len() && #[trigger] has_properties(types[i], props) {
        let i = choose|i: int|
            0 <= i < types.len() && #[trigger] has_properties(types[i], props) && forall|j: int|
                0 <= j < i ==> !#[trigger] has_properties(types[j], props);
        if types[i].heap_index < heaps.len() {
            Ok(
                PageInfo {
                    id: i as usize,
                    heap_size: heaps[types[i].heap_index as int],
                    properties: types[i].properties,
                },
            )
        } else {
            Err(PageInfoError::InvalidHeapIndex)
        }
    } else {
        Err(PageInfoError::NoMemoryType)
    }
}

/// A memory type is chosen when its properties include every requested bit, a superset being
/// enough: some type has all the bits exactly when no `NoMemoryType` comes back, and a found
/// type is the first such type, with its own properties and the size of its heap.
pub proof fn lemma_page_info_selects_first_superset(
    types: Seq<MemoryTypeInfo>,
    heaps: Seq<u64>,
    props: u16,
)
    requires
        types.len() <= usize::MAX,
    ensures
        (exists|i: int| 0 <= i < types.len() && #[trigger] types[i].properties & props == props)
            <==> page_info_spec(types, heaps, props) != Err::<PageInfo, PageInfoError>(
            PageInfoError::NoMemoryType,
        ),
        page_info_spec(types, heaps, props) matches Ok(info) ==> {
            &&& 0 <= info.id < types.len()
            &&& types[info.id as int].properties & props == props
            &&& forall|j: int| 0 <= j < info.id ==> #[trigger] types[j].properties & props != props
            &&& info.properties == types[info.id as int].properties
            &&& types[info.id as int].heap_index < heaps.len()
            &&& info.heap_size == heaps[types[info.id as int].heap_index as int]
        },
        page_info_spec(types, heaps, props) == Err::<PageInfo, PageInfoError>(
            PageInfoError::InvalidHeapIndex,
        ) ==> exists|i: int|
            0 <= i < types.len() && #[trigger] types[i].properties & props == props
                && types[i].heap_index >= heaps.len() && forall|j: int|
                0 <= j < i ==> #[trigger] types[j].properties & props != props,
{
    if exists|i: int| 0 <= i < types.len() && #[trigger] has_properties(types[i], props) {
        let w = choose|i: int| 0 <= i < types.len() && #[trigger] has_properties(types[i], props);
        lemma_first_with_properties(types, props, 0, w);
        let i = choose|i: int|
            0 <= i < types.len() && #[trigger] has_properties(types[i], props) && forall|j: int|
                0 <= j < i ==> !#[trigger] has_properties(types[j], props);
        assert(has_properties(types[i], props));
        assert(types[i].properties & props == props);
        assert(i as usize as int == i);
        assert forall|j: int| 0 <= j < i implies #[trigger] types[j].properties & props != props by {
            assert(!has_properties(types[j], props));
        }
    } else {
        assert forall|i: int| 0 <= i < types.len() implies #[trigger] types[i].properties & props != props by {
            assert(!has_properties(types[i], props));
        }
    }
}

/// Where some memory type has all of `props`, a first one has.
proof fn lemma_first_with_properties(types: Seq<MemoryTypeInfo>, props: u16, k: int, w: int)
    requires
        0 <= k <= w < types.len(),
        has_properties(types[w], props),
        forall|j: int| 0 <= j < k ==> !#[trigger] has_properties(types[j], props),
    ensures
        exists|i: int|
            0 <= i < types.len() && #[trigger] has_properties(types[i], props) && forall|j: int|
                0 <= j < i ==> !#[trigger] has_properties(types[j], props),
    decreases w - k,
{
    if has_properties(types[k], props) {
        assert(0 <= k < types.len() && has_properties(types[k], props));
    } else {
        lemma_first_with_properties(types, props, k + 1, w);
    }
}

/// Finds the first memory type that has all of `props`, and the size of its heap.
pub fn get_page_info(memory_types: &Vec<MemoryTypeInfo>, memory_heaps: &Vec<u64>, props: u16) -> (r:
    Result<PageInfo, PageInfoError>)
    ensures
        r == page_info_spec(memory_types@, memory_heaps@, props),
        (exists|i: int|
            0 <= i < memory_types@.len() && #[trigger] memory_types@[i].properties & props == props)
            <==> r != Err::<PageInfo, PageInfoError>(PageInfoError::NoMemoryType),
        r matches Ok(info) ==> {
            &&& 0 <= info.id < memory_types@.len()
            &&& memory_types@[info.id as int].properties & props == props
            &&& forall|j: int|
                0 <= j < info.id ==> #[trigger] memory_types@[j].properties & props != props
        },
{
    let n: usize = memory_types.len();
    proof {
        lemma_page_info_selects_first_superset(memory_types@, memory_heaps@, props);
    }
    let mut i: usize = 0;
    while i < n
        invariant
            n == memory_types@.len(),
            0 <= i <= memory_types@.len(),
            forall|j: int| 0 <= j < i ==> !#[trigger] has_properties(memory_types@[j], props),
        decreases memory_types@.len() - i,
    {
        let t = memory_types[i];
        if t.properties & props == props {
            proof {
                assert(has_properties(memory_types@[i as int], props));
                let c = choose|c: int|
                    0 <= c < memory_types@.len() && #[trigger] has_properties(memory_types@[c], props)
                        && forall|j: int| 0 <= j < c ==> !#[trigger] has_properties(memory_types@[j], props);
                if c < i {
                    assert(!has_properties(memory_types@[c], props));
                }
                if (i as int) < c {
                    assert(!has_properties(memory_types@[i as int], props));
                }
                assert(memory_types@[i as int].properties & props == props);
                assert forall|j: int| 0 <= j < i implies #[trigger] memory_types@[j].properties
                    & props != props by {
                    assert(!has_properties(memory_types@[j], props));
                }
            }
            if t.heap_index < memory_heaps.len() {
                return Ok(
                    PageInfo {
                        id: i,
                        heap_size: memory_heaps[t.heap_index],
                        properties: t.properties,
                    },
                );
            } else {
                return Err(PageInfoError::InvalidHeapIndex);
            }
        }
        i = i + 1;
    }
    Err(PageInfoError::NoMemoryType)
}

/// Where an allocation lives: the memory type, the page and the offset inside the page.
#[derive(Debug, Clone, Copy)]
pub struct AllocationIndex {
    memory_type: MemoryType,
    page: Index,
    offset: u64,
}

impl AllocationIndex {
    pub closed spec fn memory_type_spec(&self) -> MemoryType {
        self.memory_type
    }

    pub closed spec fn page_spec(&self) -> Index {
        self.page
    }

    pub closed spec fn offset_spec(&self) -> u64 {
        self.offset
    }

    pub fn memory_type(&self) -> (r: MemoryType)
        ensures
            r == self.memory_type_spec(),
    {
        self.memory_type
    }

    pub fn page(&self) -> (r: Index)
        ensures
            r == self.page_spec(),
    {
        self.page
    }

    pub fn offset(&self) -> (r: u64)
        ensures
            r == self.offset_spec(),
    {
        self.offset
    }
}

/// The outcome of a successful allocation: where it lives, and the size of the page that
/// was opened for it when no existing page had room.
#[derive(Debug, Clone, Copy)]
pub struct Placement {
    pub index: AllocationIndex,
    pub new_page: Option<u64>,
}

/// The requirement mask `mask` does not allow the memory type `id`.
pub open spec fn mask_rejects(mask: Option<u32>, id: usize) -> bool {
    match mask {
        Some(m) => !(id < 32 && m & (1u32 << (id as u32)) != 0),
        None => false,
    }
}

/// A requirement mask allows memory type `id` exactly when bit `id` of the mask is set;
/// no other bit of the mask matters.
pub proof fn lemma_mask_selects_bit(m: u32, id: usize)
    ensures
        !mask_rejects(Some(m), id) <==> (id < 32 && (m >> (id as u32)) & 1 == 1),
{
    if id < 32 {
        let k = id as u32;
        assert((m & (1u32 << k) != 0) <==> ((m >> k) & 1 == 1)) by (bit_vector)
            requires
                k < 32,
        ;
    }
}

/// Whether the requirement mask `mask` allows the memory type `id`.
pub fn mask_allows(mask: Option<u32>, id: usize) -> (r: bool)
    ensures
        r == !mask_rejects(mask, id),
        match mask {
            Some(m) => r == (id < 32 && (m >> (id as u32)) & 1 == 1),
            None => r,
        },
{
    proof {
        if let Some(m) = mask {
            lemma_mask_selects_bit(m, id);
        }
    }
    match mask {
        Some(m) => id < 32 && m & (1u32 << (id as u32)) != 0,
        None => true,
    }
}

/// `order` lists every page of `pages` exactly once.
pub open spec fn order_lists_pages(pages: Map<Index, Allocations>, order: Seq<Index>) -> bool {
    &&& order.no_duplicates()
    &&& forall|i: Index| #[trigger] order.contains(i) <==> pages.contains_key(i)
}

/// Every page of an arena has a valid layout.
pub open spec fn pages_wf(pages: Map<Index, Allocations>) -> bool {
    forall|i: Index| #[trigger] pages.contains_key(i) ==> pages[i].wf()
}

/// Every allocation of every page starts at, and spans, a multiple of `m` bytes.
pub open spec fn pages_aligned(pages: Map<Index, Allocations>, m: u64) -> bool {
    forall|i: Index| #[trigger] pages.contains_key(i) ==> aligned_layout(pages[i]@, m as int)
}

/// No page of `order` has room for `n` bytes.
pub open spec fn all_pages_full(pages: Map<Index, Allocations>, order: Seq<Index>, n: int) -> bool {
    forall|l: int| 0 <= l < order.len() ==> #[trigger] page_full(pages[order[l]], n)
}

/// The page `p` has no room for `n` bytes.
pub open spec fn page_full(p: Allocations, n: int) -> bool {
    no_room(p@, p.page_size() as int, n)
}

/// The size of the page opened for a request of `n` bytes.
pub open spec fn new_page_size(n: u64, min_alignment: u64) -> u64 {
    if BLOCK_SIZE * min_alignment >= n {
        (BLOCK_SIZE * min_alignment) as u64
    } else {
        n
    }
}

/// How placing `n` bytes turned the pages `before` (iterated in `order`) into `after`:
/// first-fit in the first page with room, else at offset zero of a new page.
pub open spec fn placement_spec(
    before: Map<Index, Allocations>,
    order: Seq<Index>,
    after: Map<Index, Allocations>,
    n: u64,
    min_alignment: u64,
    page: Index,
    offset: u64,
    new_page: Option<u64>,
) -> bool {
    match new_page {
        None => {
            &&& exists|j: int|
                0 <= j < order.len() && order[j] == page && forall|l: int|
                    0 <= l < j ==> #[trigger] page_full(before[order[l]], n as int)
            &&& before.contains_key(page)
            &&& is_first_fit(before[page]@, offset as int, n as int)
            &&& offset + n <= before[page].page_size()
            &&& after.contains_key(page)
            &&& after == before.insert(page, after[page])
            &&& after[page].page_size() == before[page].page_size()
            &&& placed(before[page]@, after[page]@, Allocation { offset, size: n })
        },
        Some(size) => {
            &&& forall|l: int| 0 <= l < order.len() ==> #[trigger] page_full(before[order[l]], n as int)
            &&& forall|k: Index| #[trigger] before.contains_key(k) ==> page_full(before[k], n as int)
            &&& size == new_page_size(n, min_alignment)
            &&& !before.contains_key(page)
            &&& offset == 0
            &&& after.contains_key(page)
            &&& after == before.insert(page, after[page])
            &&& after[page].page_size() == size
            &&& after[page]@ == seq![Allocation { offset: 0, size: n }]
        },
    }
}

/// A placement among pages whose allocations are all aligned to `m`, of a size that is a
/// multiple of `m`, starts at a multiple of `m` and keeps every page aligned.
pub proof fn lemma_placement_aligned(
    before: Map<Index, Allocations>,
    order: Seq<Index>,
    after: Map<Index, Allocations>,
    n: u64,
    m: u64,
    page: Index,
    offset: u64,
    new_page: Option<u64>,
)
    requires
        placement_spec(before, order, after, n, m, page, offset, new_page),
        pages_aligned(before, m),
        n > 0,
        m > 0,
        n % m == 0,
    ensures
        offset % m == 0,
        pages_aligned(after, m),
{
    let a = Allocation { offset, size: n };
    if new_page is None {
        lemma_first_fit_aligned(before[page]@, offset as int, n as int, m as int);
        lemma_placed_aligned(before[page]@, after[page]@, a, m as int);
    } else {
        assert(aligned_layout(after[page]@, m as int)) by {
            assert(after[page]@[0] == a);
        }
    }
    assert forall|i: Index| #[trigger] after.contains_key(i) implies aligned_layout(after[i]@, m as int) by {
        if i != page {
            assert(after[i] == before[i]);
        }
    }
}

/// Places `n` bytes in the first page of `pages` with room, or else in a new page; returns
/// the page, the offset and, for a new page, its size.
fn place(pages: &mut Arena<Allocations>, n: u64, min_alignment: u64) -> (r: (Index, u64, Option<u64>))
    requires
        pages_wf(arena_pages(*old(pages))),
        n > 0,
        BLOCK_SIZE * min_alignment <= u64::MAX || !all_pages_full(
            arena_pages(*old(pages)),
            arena_order(*old(pages)),
            n as int,
        ),
    ensures
        pages_wf(arena_pages(*final(pages))),
        r.2 is None ==> arena_order(*final(pages)) == arena_order(*old(pages)),
        arena_order(*final(pages)).no_duplicates(),
        forall|i: Index| #[trigger]
            arena_order(*final(pages)).contains(i) <==> arena_pages(*final(pages)).contains_key(i),
        placement_spec(
            arena_pages(*old(pages)),
            arena_order(*old(pages)),
            arena_pages(*final(pages)),
            n,
            min_alignment,
            r.0,
            r.1,
            r.2,
        ),
{
    let ghost before = arena_pages(*pages);
    let ghost order = arena_order(*pages);
    let indices = arena_indices(pages);
    let mut j: usize = 0;
    while j < indices.len()
        invariant
            before == arena_pages(*old(pages)),
            order == arena_order(*old(pages)),
            arena_pages(*pages) == before,
            arena_order(*pages) == order,
            indices@ == order,
            pages_wf(before),
            n > 0,
            forall|i: Index| #[trigger] indices@.contains(i) <==> before.contains_key(i),
            indices@.no_duplicates(),
            0 <= j <= indices@.len(),
            forall|l: int| 0 <= l < j ==> #[trigger] page_full(before[order[l]], n as int),
        decreases indices@.len() - j,
    {
        let index = indices[j];
        proof {
            assert(indices@.contains(index));
        }
        let page = arena_page_mut(pages, index);
        match page.try_alloc(n) {
            Ok(offset) => {
                proof {
                    assert(order[j as int] == index);
                    assert(arena_pages(*pages)[index] == *page);
                }
                return (index, offset, None);
            },
            Err(_) => {},
        }
        proof {
            assert(arena_pages(*pages) =~= before);
        }
        j = j + 1;
    }
    // We didn't find a suitable memory page so create a new one
    proof {
        assert(all_pages_full(before, order, n as int));
        assert forall|k: Index| #[trigger] before.contains_key(k) implies page_full(before[k], n as int) by {
            assert(indices@.contains(k));
            let l = choose|l: int| 0 <= l < indices@.len() && indices@[l] == k;
            assert(page_full(before[order[l]], n as int));
        }
    }
    let size = if BLOCK_SIZE * min_alignment >= n {
        BLOCK_SIZE * min_alignment
    } else {
        n
    };
    let mut page = Allocations::new(size);
    proof {
        // an empty page of at least `n` bytes takes the request at offset zero
        lemma_empty_page_first_fit(n as int);
    }
    let offset = page.try_alloc(n).unwrap();
    proof {
        assert(page@ =~= seq![Allocation { offset: 0, size: n }]);
    }
    let index = arena_insert(pages, page);
    proof {
        assert(arena_pages(*pages)[index] == page);
    }
    (index, offset, Some(size))
}

/// Heapy: the allocation bookkeeping of device memory, by memory type and page.
#[derive(Debug)]
pub struct Heapy {
    device_local: (PageInfo, Arena<Allocations>),
    host_visible: (PageInfo, Arena<Allocations>),
    min_alignment: u64,
}

/// An allocation lives at `at` in the pages `pages`.
pub open spec fn allocated_in(pages: Map<Index, Allocations>, page: Index, offset: u64) -> bool {
    &&& pages.contains_key(page)
    &&& exists|j: int| 0 <= j < pages[page]@.len() && #[trigger] pages[page]@[j].offset == offset
}

impl Heapy {
    /// The memory type that the pages of `t` come from.
    pub closed spec fn info_of(&self, t: MemoryType) -> PageInfo {
        match t {
            MemoryType::DeviceLocal => self.device_local.0,
            MemoryType::HostVisible => self.host_visible.0,
        }
    }

    /// The pages of memory type `t`, by index.
    pub closed spec fn pages_of(&self, t: MemoryType) -> Map<Index, Allocations> {
        match t {
            MemoryType::DeviceLocal => arena_pages(self.device_local.1),
            MemoryType::HostVisible => arena_pages(self.host_visible.1),
        }
    }

    /// The order in which the pages of memory type `t` are tried.
    pub closed spec fn order_of(&self, t: MemoryType) -> Seq<Index> {
        match t {
            MemoryType::DeviceLocal => arena_order(self.device_local.1),
            MemoryType::HostVisible => arena_order(self.host_visible.1),
        }
    }

    /// Every size is rounded up to a multiple of this alignment.
    pub closed spec fn alignment(&self) -> u64 {
        self.min_alignment
    }

    /// Every page of every memory type has a valid layout, and the order in which a memory
    /// type's pages are tried lists each of them exactly once; with a power-of-two alignment,
    /// every allocation starts at, and spans, a multiple of it.
    pub open spec fn wf(&self) -> bool {
        &&& pages_wf(self.pages_of(MemoryType::DeviceLocal))
        &&& pages_wf(self.pages_of(MemoryType::HostVisible))
        &&& order_lists_pages(self.pages_of(MemoryType::DeviceLocal), self.order_of(MemoryType::DeviceLocal))
        &&& order_lists_pages(self.pages_of(MemoryType::HostVisible), self.order_of(MemoryType::HostVisible))
        &&& is_power_of_two(self.alignment()) ==> {
            &&& pages_aligned(self.pages_of(MemoryType::DeviceLocal), self.alignment())
            &&& pages_aligned(self.pages_of(MemoryType::HostVisible), self.alignment())
        }
    }

    /// Looks up the memory types for device-local pages and for host-visible (coherent)
    /// pages; no page exists yet.
    pub fn new(memory_types: &Vec<MemoryTypeInfo>, memory_heaps: &Vec<u64>, min_alignment: u64) -> (r:
        Result<Heapy, PageInfoError>)
        ensures
            match r {
                Ok(h) => {
                    &&& h.wf()
                    &&& page_info_spec(memory_types@, memory_heaps@, DEVICE_LOCAL) == Ok::<
                        PageInfo,
                        PageInfoError,
                    >(h.info_of(MemoryType::DeviceLocal))
                    &&& page_info_spec(memory_types@, memory_heaps@, CPU_VISIBLE | COHERENT) == Ok::<
                        PageInfo,
                        PageInfoError,
                    >(h.info_of(MemoryType::HostVisible))
                    &&& h.pages_of(MemoryType::DeviceLocal).dom().is_empty()
                    &&& h.pages_of(MemoryType::HostVisible).dom().is_empty()
                    &&& h.alignment() == min_alignment
                },
                Err(e) => match page_info_spec(memory_types@, memory_heaps@, DEVICE_LOCAL) {
                    Err(d) => e == d,
                    Ok(_) => page_info_spec(memory_types@, memory_heaps@, CPU_VISIBLE | COHERENT)
                        == Err::<PageInfo, PageInfoError>(e),
                },
            },
    {
        let device_local = match get_page_info(memory_types, memory_heaps, DEVICE_LOCAL) {
            Ok(info) => info,
            Err(e) => {
                return Err(e);
            },
        };
        let host_visible = match get_page_info(memory_types, memory_heaps, CPU_VISIBLE | COHERENT) {
            Ok(info) => info,
            Err(e) => {
                return Err(e);
            },
        };
        let heapy = Heapy {
            device_local: (device_local, arena_new()),
            host_visible: (host_visible, arena_new()),
            min_alignment,
        };
        proof {
            assert(pages_wf(heapy.pages_of(MemoryType::DeviceLocal)));
            assert(pages_wf(heapy.pages_of(MemoryType::HostVisible)));
        }
        Ok(heapy)
    }

    /// The memory type that the pages of `memory_type` come from.
    pub fn page_info(&self, memory_type: MemoryType) -> (r: PageInfo)
        ensures
            r == self.info_of(memory_type),
    {
        match memory_type {
            MemoryType::DeviceLocal => self.device_local.0,
            MemoryType::HostVisible => self.host_visible.0,
        }
    }

    /// The alignment every size is rounded up to.
    pub fn min_alignment(&self) -> (r: u64)
        ensures
            r == self.alignment(),
    {
        self.min_alignment
    }

    /// Allocates `size` bytes, rounded up to the minimum alignment, of `memory_type`: in the
    /// first page that has room, first-fit, or else in a new page of at least `BLOCK_SIZE`
    /// alignments. With `type_mask`, the pages' memory type must be one the mask allows.
    pub fn allocate(&mut self, size: u64, memory_type: MemoryType, type_mask: Option<u32>) -> (r:
        Placement)
        requires
            old(self).wf(),
            size >= 1,
            old(self).alignment() >= 1,
            size + old(self).alignment() - 1 <= u64::MAX,
            !mask_rejects(type_mask, old(self).info_of(memory_type).id),
            BLOCK_SIZE * old(self).alignment() <= u64::MAX || !all_pages_full(
                old(self).pages_of(memory_type),
                old(self).order_of(memory_type),
                round_up_spec(size, old(self).alignment()) as int,
            ),
        ensures
            final(self).wf(),
            final(self).alignment() == old(self).alignment(),
            forall|t: MemoryType| #[trigger] final(self).info_of(t) == old(self).info_of(t),
            forall|t: MemoryType|
                t != memory_type ==> #[trigger] final(self).pages_of(t) == old(self).pages_of(t)
                    && final(self).order_of(t) == old(self).order_of(t),
            r.index.memory_type_spec() == memory_type,
            r.new_page is None ==> final(self).order_of(memory_type) == old(self).order_of(
                memory_type,
            ),
            is_power_of_two(old(self).alignment()) ==> r.index.offset_spec() % old(self).alignment()
                == 0,
            placement_spec(
                old(self).pages_of(memory_type),
                old(self).order_of(memory_type),
                final(self).pages_of(memory_type),
                round_up_spec(size, old(self).alignment()),
                old(self).alignment(),
                r.index.page_spec(),
                r.index.offset_spec(),
                r.new_page,
            ),
    {
        // Size needs to be corrected in respect to the alignment requirements
        let n = round_up_to_nearest_multiple(size, self.min_alignment);
        let align = self.min_alignment;
        let ghost before = self.pages_of(memory_type);
        let ghost order = self.order_of(memory_type);
        let (page, offset, new_page) = match memory_type {
            MemoryType::DeviceLocal => place(&mut self.device_local.1, n, align),
            MemoryType::HostVisible => place(&mut self.host_visible.1, n, align),
        };
        proof {
            if is_power_of_two(align) {
                lemma_placement_aligned(
                    before,
                    order,
                    self.pages_of(memory_type),
                    n,
                    align,
                    page,
                    offset,
                    new_page,
                );
            }
        }
        Placement { index: AllocationIndex { memory_type, page, offset }, new_page }
    }

    /// Whether some page of `memory_type` has room for `size` bytes rounded up to the
    /// minimum alignment; when none has, an allocation opens a new page.
    pub fn has_room(&self, size: u64, memory_type: MemoryType) -> (r: bool)
        requires
            self.wf(),
            size >= 1,
            self.alignment() >= 1,
            size + self.alignment() - 1 <= u64::MAX,
        ensures
            r == !all_pages_full(
                self.pages_of(memory_type),
                self.order_of(memory_type),
                round_up_spec(size, self.alignment()) as int,
            ),
    {
        let n = round_up_to_nearest_multiple(size, self.min_alignment);
        let pages = match memory_type {
            MemoryType::DeviceLocal => &self.device_local.1,
            MemoryType::HostVisible => &self.host_visible.1,
        };
        let ghost ps = arena_pages(*pages);
        let ghost order = arena_order(*pages);
        let indices = arena_indices(pages);
        let mut j: usize = 0;
        while j < indices.len()
            invariant
                ps == arena_pages(*pages),
                ps == self.pages_of(memory_type),
                order == self.order_of(memory_type),
                n == round_up_spec(size, self.alignment()),
                n > 0,
                indices@ == order,
                order == arena_order(*pages),
                pages_wf(ps),
                forall|i: Index| #[trigger] indices@.contains(i) <==> ps.contains_key(i),
                0 <= j <= indices@.len(),
                forall|l: int| 0 <= l < j ==> #[trigger] page_full(ps[order[l]], n as int),
            decreases indices@.len() - j,
        {
            let index = indices[j];
            proof {
                assert(indices@.contains(index));
            }
            match arena_get(pages, index) {
                Some(p) => {
                    if p.has_room(n) {
                        proof {
                            assert(!page_full(ps[order[j as int]], n as int));
                        }
                        return true;
                    }
                },
                None => {},
            }
            j = j + 1;
        }
        false
    }

    /// An allocation lives at `at`.
    pub open spec fn allocated(&self, at: AllocationIndex) -> bool {
        allocated_in(self.pages_of(at.memory_type_spec()), at.page_spec(), at.offset_spec())
    }

    /// Whether an allocation lives at `at`.
    pub fn is_allocated(&self, at: &AllocationIndex) -> (r: bool)
        ensures
            r == self.allocated(*at),
    {
        let pages = match at.memory_type {
            MemoryType::DeviceLocal => &self.device_local.1,
            MemoryType::HostVisible => &self.host_visible.1,
        };
        match arena_get(pages, at.page) {
            Some(p) => match p.position(at.offset) {
                Some(_) => true,
                None => false,
            },
            None => false,
        }
    }

    /// Frees the allocation at `at`; its page stays.
    pub fn deallocate(&mut self, at: AllocationIndex)
        requires
            old(self).wf(),
            old(self).allocated(at),
        ensures
            final(self).wf(),
            final(self).alignment() == old(self).alignment(),
            forall|t: MemoryType| #[trigger] final(self).info_of(t) == old(self).info_of(t),
            forall|t: MemoryType| #[trigger] final(self).order_of(t) == old(self).order_of(t),
            forall|t: MemoryType|
                t != at.memory_type_spec() ==> #[trigger] final(self).pages_of(t) == old(self).pages_of(
                    t,
                ),
            ({
                let t = at.memory_type_spec();
                let k = at.page_spec();
                &&& final(self).pages_of(t).contains_key(k)
                &&& final(self).pages_of(t) == old(self).pages_of(t).insert(k, final(self).pages_of(t)[k])
                &&& final(self).pages_of(t)[k].page_size() == old(self).pages_of(t)[k].page_size()
                &&& released(old(self).pages_of(t)[k]@, final(self).pages_of(t)[k]@, at.offset_spec())
            }),
    {
        let ghost t = at.memory_type;
        let ghost before = self.pages_of(t);
        let pages = match at.memory_type {
            MemoryType::DeviceLocal => &mut self.device_local.1,
            MemoryType::HostVisible => &mut self.host_visible.1,
        };
        let page = arena_page_mut(pages, at.page);
        let ghost page_before = *page;
        page.dealloc(at.offset);
        proof {
            assert(pages_wf(arena_pages(*pages)));
            if is_power_of_two(self.min_alignment) {
                lemma_released_aligned(page_before@, page@, at.offset, self.min_alignment as int);
                assert forall|i: Index| #[trigger] arena_pages(*pages).contains_key(i) implies aligned_layout(
                    arena_pages(*pages)[i]@,
                    self.min_alignment as int,
                ) by {
                    if i != at.page {
                        assert(arena_pages(*pages)[i] == before[i]);
                    }
                }
            }
        }
    }

    /// The allocation that lives at `at`, if there is one.
    pub fn allocation_at(&self, at: &AllocationIndex) -> (r: Option<Allocation>)
        requires
            self.wf(),
        ensures
            match r {
                Some(a) => {
                    let p = self.pages_of(at.memory_type_spec())[at.page_spec()];
                    &&& self.allocated(*at)
                    &&& exists|j: int| 0 <= j < p@.len() && #[trigger] p@[j] == a
                    &&& a.offset == at.offset_spec()
                },
                None => !self.allocated(*at),
            },
    {
        let pages = match at.memory_type {
            MemoryType::DeviceLocal => &self.device_local.1,
            MemoryType::HostVisible => &self.host_visible.1,
        };
        match arena_get(pages, at.page) {
            Some(page) => match page.position(at.offset) {
                Some(i) => {
                    let a = page.allocations()[i];
                    proof {
                        let ps = self.pages_of(at.memory_type_spec());
                        assert(ps[at.page_spec()] == *page);
                        assert(page@[i as int] == a);
                        assert(ps[at.page_spec()]@[i as int].offset == at.offset_spec());
                    }
                    Some(a)
                },
                None => None,
            },
            None => None,
        }
    }

    /// The allocation at `at` that `data_length` bytes are to be written into: only host
    /// visible memory can be written, and the data must fit the allocation.
    pub fn write_region(&self, at: &AllocationIndex, data_length: usize) -> (r: Allocation)
        requires
            self.wf(),
            at.memory_type_spec() == MemoryType::HostVisible,
            self.allocated(*at),
            forall|j: int|
                0 <= j < self.pages_of(MemoryType::HostVisible)[at.page_spec()]@.len() && (
                #[trigger] self.pages_of(MemoryType::HostVisible)[at.page_spec()]@[j]).offset
                    == at.offset_spec() ==> self.pages_of(
                    MemoryType::HostVisible,
                )[at.page_spec()]@[j].size as usize >= data_length,
        ensures
            r.offset == at.offset_spec(),
            exists|j: int|
                0 <= j < self.pages_of(MemoryType::HostVisible)[at.page_spec()]@.len()
                    && #[trigger] self.pages_of(MemoryType::HostVisible)[at.page_spec()]@[j] == r,
            r.size as usize >= data_length,
    {
        let a = self.allocation_at(at);
        proof {
            if a.is_none() {
                assert(!self.allocated(*at));
            }
        }
        a.unwrap()
    }
}

/// Deallocating what `allocate` just placed gives back the pages of that memory type as they
/// were: every other page is untouched, and the page that took the allocation holds the
/// allocations it held before; when the allocation opened a new page, that page stays, empty.
pub proof fn lemma_deallocate_undoes_allocate(
    before: Map<Index, Allocations>,
    order: Seq<Index>,
    middle: Map<Index, Allocations>,
    after: Map<Index, Allocations>,
    n: u64,
    min_alignment: u64,
    page: Index,
    offset: u64,
    new_page: Option<u64>,
)
    requires
        pages_wf(middle),
        placement_spec(before, order, middle, n, min_alignment, page, offset, new_page),
        after.contains_key(page),
        after == middle.insert(page, after[page]),
        after[page].page_size() == middle[page].page_size(),
        released(middle[page]@, after[page]@, offset),
    ensures
        after.remove(page) == before.remove(page),
        new_page is None ==> before.contains_key(page) && after[page]@ == before[page]@
            && after[page].page_size() == before[page].page_size(),
        new_page is Some ==> !before.contains_key(page) && after[page]@ == Seq::<Allocation>::empty(),
{
    assert(after.remove(page) =~= before.remove(page));
    assert(middle[page].wf());
    if new_page is None {
        lemma_dealloc_undoes_alloc(
            before[page]@,
            middle[page]@,
            after[page]@,
            Allocation { offset, size: n },
            middle[page].page_size() as int,
        );
    } else {
        assert(Seq::<Allocation>::empty().insert(0, Allocation { offset, size: n }) =~= middle[page]@);
        assert(placed(Seq::<Allocation>::empty(), middle[page]@, Allocation { offset, size: n }));
        lemma_dealloc_undoes_alloc(
            Seq::<Allocation>::empty(),
            middle[page]@,
            after[page]@,
            Allocation { offset, size: n },
            middle[page].page_size() as int,
        );
    }
}

} // verus!
