//! Descriptor layouts ("mixtures") and the writes that fill a descriptor set ("glue").

use crate::resource::buffer::BufferRange;
use crate::resource::pipeline::ShaderType;
use std::ops::Range;
use vstd::prelude::*;

verus! {

/// What kind of resource a descriptor binding holds.
#[derive(Debug, Clone, Copy, PartialEq, Eq, Structural)]
pub enum PartType {
    /// A uniform buffer element of the given size in bytes.
    Uniform(usize),
    Sampler,
}

/// Selects a part of a mixture by its name or by its binding.
#[derive(Debug, Clone)]
pub enum PartIndex {
    Name(String),
    Binding(u32),
}

/// One binding of a descriptor layout.
#[derive(Debug, Clone)]
pub struct MixturePart {
    pub binding: u32,
    pub name: String,
    pub shader_type: ShaderType,
    pub is_dynamic: bool,
    pub array_size: usize,
    /// Which atm is just a size (but thats probably enough)
    pub type_info: PartType,
}

/// The part `p` is the one that `index` selects.
pub open spec fn part_matches(p: MixturePart, index: PartIndex) -> bool {
    match index {
        PartIndex::Name(name) => p.name@ == name@,
        PartIndex::Binding(id) => p.binding == id,
    }
}

/// `i` is the first position of `parts` whose part `index` selects.
pub open spec fn first_match(parts: Seq<MixturePart>, index: PartIndex, i: int) -> bool {
    &&& 0 <= i < parts.len()
    &&& part_matches(parts[i], index)
    &&& forall|j: int| 0 <= j < i ==> !#[trigger] part_matches(parts[j], index)
}

/// Some part of `parts` is selected by `index`, and the first such part is a uniform buffer.
pub open spec fn selects_uniform(parts: Seq<MixturePart>, index: PartIndex) -> bool {
    exists|i: int| #[trigger] first_match(parts, index, i) && parts[i].type_info is Uniform
}

/// A name selects exactly the part with that whole name (not one whose name merely starts
/// with it), and a binding exactly the part with that binding; the part selected is the first
/// such part.
pub proof fn lemma_selected_part_has_the_index(parts: Seq<MixturePart>, index: PartIndex, i: int)
    requires
        first_match(parts, index, i),
    ensures
        0 <= i < parts.len(),
        match index {
            PartIndex::Name(n) => {
                &&& parts[i].name@ == n@
                &&& forall|j: int| 0 <= j < i ==> #[trigger] parts[j].name@ != n@
            },
            PartIndex::Binding(b) => {
                &&& parts[i].binding == b
                &&& forall|j: int| 0 <= j < i ==> #[trigger] parts[j].binding != b
            },
        },
{
    match index {
        PartIndex::Name(n) => {
            assert forall|j: int| 0 <= j < i implies #[trigger] parts[j].name@ != n@ by {
                assert(!part_matches(parts[j], index));
            }
        },
        PartIndex::Binding(b) => {
            assert forall|j: int| 0 <= j < i implies #[trigger] parts[j].binding != b by {
                assert(!part_matches(parts[j], index));
            }
        },
    }
}

/// No part of `parts` is selected by `index`: none has that whole name, or that binding.
pub proof fn lemma_no_part_has_the_index(parts: Seq<MixturePart>, index: PartIndex)
    requires
        forall|j: int| 0 <= j < parts.len() ==> !#[trigger] part_matches(parts[j], index),
    ensures
        match index {
            PartIndex::Name(n) => forall|j: int| 0 <= j < parts.len() ==> #[trigger] parts[j].name@ != n@,
            PartIndex::Binding(b) => forall|j: int|
                0 <= j < parts.len() ==> #[trigger] parts[j].binding != b,
        },
{
    match index {
        PartIndex::Name(n) => {
            assert forall|j: int| 0 <= j < parts.len() implies #[trigger] parts[j].name@ != n@ by {
                assert(!part_matches(parts[j], index));
            }
        },
        PartIndex::Binding(b) => {
            assert forall|j: int| 0 <= j < parts.len() implies #[trigger] parts[j].binding != b by {
                assert(!part_matches(parts[j], index));
            }
        },
    }
}

/// The position of the first part that `index` selects.
pub fn find_part(parts: &Vec<MixturePart>, index: &PartIndex) -> (r: Option<usize>)
    ensures
        match r {
            Some(i) => first_match(parts@, *index, i as int),
            None => forall|j: int| 0 <= j < parts@.len() ==> !#[trigger] part_matches(parts@[j], *index),
        },
        match r {
            Some(i) => match *index {
                PartIndex::Name(n) => {
                    &&& i < parts@.len()
                    &&& parts@[i as int].name@ == n@
                    &&& forall|j: int| 0 <= j < i ==> #[trigger] parts@[j].name@ != n@
                },
                PartIndex::Binding(b) => {
                    &&& i < parts@.len()
                    &&& parts@[i as int].binding == b
                    &&& forall|j: int| 0 <= j < i ==> #[trigger] parts@[j].binding != b
                },
            },
            None => match *index {
                PartIndex::Name(n) => forall|j: int|
                    0 <= j < parts@.len() ==> #[trigger] parts@[j].name@ != n@,
                PartIndex::Binding(b) => forall|j: int|
                    0 <= j < parts@.len() ==> #[trigger] parts@[j].binding != b,
            },
        },
{
    let mut i: usize = 0;
    while i < parts.len()
        invariant
            0 <= i <= parts@.len(),
            forall|j: int| 0 <= j < i ==> !#[trigger] part_matches(parts@[j], *index),
        decreases parts@.len() - i,
    {
        let p = &parts[i];
        let found = match index {
            PartIndex::Name(name) => p.name == *name,
            PartIndex::Binding(id) => p.binding == *id,
        };
        if found {
            proof {
                lemma_selected_part_has_the_index(parts@, *index, i as int);
            }
            return Some(i);
        }
        i = i + 1;
    }
    proof {
        lemma_no_part_has_the_index(parts@, *index);
    }
    None
}

/// A resource to be written into a descriptor binding.
#[derive(Debug)]
pub enum Descriptor<'a, B> {
    Buffer(&'a B, BufferRange),
}

/// One write into a descriptor set.
#[derive(Debug)]
pub struct DescriptorWrite<'a, B> {
    pub binding: u32,
    pub array_offset: usize,
    pub descriptor: Descriptor<'a, B>,
}

/// A descriptor set `S` together with the writes, into buffers `B`, collected for it.
#[derive(Debug)]
pub struct GlueBottle<'a, B, S> {
    handle: S,
    parts: Vec<MixturePart>,
    // Maps from binding to write
    writes: Vec<DescriptorWrite<'a, B>>,
}

impl<'a, B, S> GlueBottle<'a, B, S> {
    /// The layout parts of the descriptor set.
    pub closed spec fn parts_view(&self) -> Seq<MixturePart> {
        self.parts@
    }

    /// The writes collected so far, in order.
    pub closed spec fn writes_view(&self) -> Seq<DescriptorWrite<'a, B>> {
        self.writes@
    }

    /// The descriptor set the writes are meant for.
    pub closed spec fn handle_view(&self) -> S {
        self.handle
    }

    pub fn new(handle: S, parts: Vec<MixturePart>) -> (r: Self)
        ensures
            r.handle_view() == handle,
            r.parts_view() == parts@,
            r.writes_view() == Seq::<DescriptorWrite<'a, B>>::empty(),
    {
        Self { handle, parts, writes: Vec::new() }
    }

    /// The layout parts of the descriptor set.
    pub fn parts(&self) -> (r: &Vec<MixturePart>)
        ensures
            r@ == self.parts_view(),
    {
        &self.parts
    }

    /// Writes one element of the uniform buffer part that `index` selects, starting at
    /// `buffer_offset` (or 0) in `buffer`.
    pub fn write_buffer(&mut self, index: PartIndex, buffer: &'a B, buffer_offset: Option<u64>)
        requires
            selects_uniform(old(self).parts_view(), index),
            forall|i: int| #[trigger]
                first_match(old(self).parts_view(), index, i) ==> buffer_offset.unwrap_or(0)
                    + old(self).parts_view()[i].type_info->Uniform_0 <= u64::MAX,
        ensures
            final(self).handle_view() == old(self).handle_view(),
            final(self).parts_view() == old(self).parts_view(),
            exists|i: int| #[trigger]
                first_match(old(self).parts_view(), index, i) && final(self).writes_view()
                    == old(self).writes_view().push(
                    DescriptorWrite {
                        binding: old(self).parts_view()[i].binding,
                        array_offset: 0,
                        descriptor: Descriptor::Buffer(
                            buffer,
                            BufferRange {
                                offset: buffer_offset.unwrap_or(0),
                                size: Some(
                                    old(self).parts_view()[i].type_info->Uniform_0 as u64,
                                ),
                            },
                        ),
                    },
                ),
            final(self).writes_view().len() == old(self).writes_view().len() + 1,
            index matches PartIndex::Binding(b) ==> final(self).writes_view().last().binding == b,
            index matches PartIndex::Name(n) ==> exists|i: int|
                0 <= i < old(self).parts_view().len() && #[trigger] old(self).parts_view()[i].name@
                    == n@ && (forall|j: int|
                    0 <= j < i ==> #[trigger] old(self).parts_view()[j].name@ != n@)
                    && final(self).writes_view().last().binding == old(self).parts_view()[i].binding
                    && old(self).parts_view()[i].type_info is Uniform,
    {
        let i = find_part(&self.parts, &index);
        proof {
            let w = choose|w: int| #[trigger]
                first_match(self.parts_view(), index, w) && self.parts_view()[w].type_info is Uniform;
            if i.is_none() {
                assert(!part_matches(self.parts@[w], index));
            }
        }
        let i = i.unwrap();
        proof {
            let w = choose|w: int| #[trigger]
                first_match(self.parts_view(), index, w) && self.parts_view()[w].type_info is Uniform;
            if w < i {
                assert(!part_matches(self.parts@[w], index));
            }
            if (i as int) < w {
                assert(!part_matches(self.parts@[i as int], index));
            }
            assert(first_match(self.parts_view(), index, i as int));
            lemma_selected_part_has_the_index(self.parts@, index, i as int);
        }
        let ghost gi: int = i as int;
        let binding = self.parts[i].binding;
        match self.parts[i].type_info {
            PartType::Uniform(size) => {
                let start = match buffer_offset {
                    Some(o) => o,
                    None => 0,
                };
                let end = start + size as u64;
                let write = DescriptorWrite {
                    binding,
                    array_offset: 0,
                    descriptor: Descriptor::Buffer(buffer, BufferRange::from(start..end)),
                };
                self.writes.push(write);
            },
            PartType::Sampler => {},
        }
        proof {
            if let PartIndex::Name(n) = index {
                assert(0 <= gi < old(self).parts_view().len() && old(self).parts_view()[gi].name@
                    == n@);
            }
        }
    }

    /// Writes the elements `range` of the uniform buffer array part that `index` selects,
    /// starting at `buffer_offset` (or 0) in `buffer`.
    pub fn write_array(
        &mut self,
        index: PartIndex,
        range: Range<u64>,
        buffer: &'a B,
        buffer_offset: Option<u64>,
    )
        requires
            selects_uniform(old(self).parts_view(), index),
            range.start <= range.end,
            forall|i: int| #[trigger]
                first_match(old(self).parts_view(), index, i) ==> {
                    let size = old(self).parts_view()[i].type_info->Uniform_0;
                    buffer_offset.unwrap_or(0) + size * (range.end - range.start) <= u64::MAX
                },
        ensures
            final(self).handle_view() == old(self).handle_view(),
            final(self).parts_view() == old(self).parts_view(),
            exists|i: int| #[trigger]
                first_match(old(self).parts_view(), index, i) && final(self).writes_view()
                    == old(self).writes_view().push(
                    DescriptorWrite {
                        binding: old(self).parts_view()[i].binding,
                        array_offset: range.start as usize,
                        descriptor: Descriptor::Buffer(
                            buffer,
                            BufferRange {
                                offset: buffer_offset.unwrap_or(0),
                                size: Some(
                                    (old(self).parts_view()[i].type_info->Uniform_0 * (range.end
                                        - range.start)) as u64,
                                ),
                            },
                        ),
                    },
                ),
            final(self).writes_view().len() == old(self).writes_view().len() + 1,
            index matches PartIndex::Binding(b) ==> final(self).writes_view().last().binding == b,
            index matches PartIndex::Name(n) ==> exists|i: int|
                0 <= i < old(self).parts_view().len() && #[trigger] old(self).parts_view()[i].name@
                    == n@ && (forall|j: int|
                    0 <= j < i ==> #[trigger] old(self).parts_view()[j].name@ != n@)
                    && final(self).writes_view().last().binding == old(self).parts_view()[i].binding
                    && old(self).parts_view()[i].type_info is Uniform,
    {
        let i = find_part(&self.parts, &index);
        proof {
            let w = choose|w: int| #[trigger]
                first_match(self.parts_view(), index, w) && self.parts_view()[w].type_info is Uniform;
            if i.is_none() {
                assert(!part_matches(self.parts@[w], index));
            }
        }
        let i = i.unwrap();
        proof {
            let w = choose|w: int| #[trigger]
                first_match(self.parts_view(), index, w) && self.parts_view()[w].type_info is Uniform;
            if w < i {
                assert(!part_matches(self.parts@[w], index));
            }
            if (i as int) < w {
                assert(!part_matches(self.parts@[i as int], index));
            }
            assert(first_match(self.parts_view(), index, i as int));
            lemma_selected_part_has_the_index(self.parts@, index, i as int);
        }
        let ghost gi: int = i as int;
        let binding = self.parts[i].binding;
        match self.parts[i].type_info {
            PartType::Uniform(size) => {
                let start = match buffer_offset {
                    Some(o) => o,
                    None => 0,
                };
                let count = range.end - range.start;
                proof {
                    assert(0 <= size * count) by (nonlinear_arith)
                        requires
                            size >= 0,
                            count >= 0,
                    ;
                }
                let size = size as u64 * count;
                let end = start + size;
                let write = DescriptorWrite {
                    binding,
                    array_offset: range.start as usize,
                    descriptor: Descriptor::Buffer(buffer, BufferRange::from(start..end)),
                };
                self.writes.push(write);
            },
            PartType::Sampler => {},
        }
        proof {
            if let PartIndex::Name(n) = index {
                assert(0 <= gi < old(self).parts_view().len() && old(self).parts_view()[gi].name@
                    == n@);
            }
        }
    }

    /// Takes the bottle apart into the descriptor set, its layout parts and the collected
    /// writes, to apply the writes to the set.
    pub fn into_parts(self) -> (r: (S, Vec<MixturePart>, Vec<DescriptorWrite<'a, B>>))
        ensures
            r.0 == self.handle_view(),
            r.1@ == self.parts_view(),
            r.2@ == self.writes_view(),
    {
        (self.handle, self.parts, self.writes)
    }
}

} // verus!
