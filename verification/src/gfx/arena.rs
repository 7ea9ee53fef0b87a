//! The pages of one memory type live in a `generational_arena::Arena`; this module states what
//! the arena operations that Heapy uses do to the pages it holds.

use crate::gfx::memory_page::Allocations;
use generational_arena::{Arena, Index};
use vstd::prelude::*;

verus! {

/// `generational_arena::Arena`: seen only through `arena_pages` and `arena_order`.
#[verifier::external_type_specification]
#[verifier::external_body]
#[verifier::reject_recursive_types(T)]
pub struct ExArena<T>(Arena<T>);

/// `generational_arena::Index`: carried as the key of a page; nothing inside it is read here.
#[verifier::external_type_specification]
#[verifier::external_body]
pub struct ExIndex(Index);

/// The pages that an arena holds, by the index that each was inserted under.
pub uninterp spec fn arena_pages(arena: Arena<Allocations>) -> Map<Index, Allocations>;

/// The indices of an arena's pages in the order in which the arena's iterator yields them.
pub uninterp spec fn arena_order(arena: Arena<Allocations>) -> Seq<Index>;

/// `Arena::new`: an arena that holds nothing.
#[verifier::external_body]
pub(crate) fn arena_new() -> (r: Arena<Allocations>)
    ensures
        arena_pages(r).dom() == Set::<Index>::empty(),
        arena_order(r).len() == 0,
{
    Arena::new()
}

/// `Arena::insert`: the page is stored under an index that the arena did not use before,
/// and the other pages stay as they are. The iteration order afterwards lists every index
/// of the arena exactly once, as it does for every arena; where the new index falls in it is
/// left unsaid: the arena reuses free slots before it appends.
#[verifier::external_body]
pub(crate) fn arena_insert(arena: &mut Arena<Allocations>, page: Allocations) -> (index: Index)
    ensures
        !arena_pages(*old(arena)).contains_key(index),
        arena_pages(*final(arena)) == arena_pages(*old(arena)).insert(index, page),
        arena_order(*final(arena)).no_duplicates(),
        forall|i: Index| #[trigger]
            arena_order(*final(arena)).contains(i) <==> arena_pages(*final(arena)).contains_key(i),
{
    arena.insert(page)
}

/// `Arena::iter`, keeping the index of each item: every index of the arena exactly once, in
/// iteration order.
#[verifier::external_body]
pub(crate) fn arena_indices(arena: &Arena<Allocations>) -> (indices: Vec<Index>)
    ensures
        indices@ == arena_order(*arena),
        indices@.no_duplicates(),
        forall|i: Index| #[trigger] indices@.contains(i) <==> arena_pages(*arena).contains_key(i),
{
    arena.iter().map(|(index, _page)| index).collect()
}

/// `Arena::get`: the page stored under `index`, if there is one.
#[verifier::external_body]
pub(crate) fn arena_get(arena: &Arena<Allocations>, index: Index) -> (page: Option<&Allocations>)
    ensures
        match page {
            Some(p) => arena_pages(*arena).contains_key(index) && *p == arena_pages(*arena)[index],
            None => !arena_pages(*arena).contains_key(index),
        },
{
    arena.get(index)
}

/// `IndexMut` of `Arena`: exclusive access to the page stored under `index`; whatever is
/// written through it is what the arena holds under `index` afterwards, and nothing else
/// changes.
#[verifier::external_body]
pub(crate) fn arena_page_mut(arena: &mut Arena<Allocations>, index: Index) -> (page:
    &mut Allocations)
    requires
        arena_pages(*old(arena)).contains_key(index),
    ensures
        *page == arena_pages(*old(arena))[index],
        arena_pages(*final(arena)) == arena_pages(*old(arena)).insert(index, *final(page)),
        arena_order(*final(arena)) == arena_order(*old(arena)),
{
    &mut arena[index]
}

} // verus!
