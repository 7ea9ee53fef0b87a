//! Descriptions of render passes: their attachments, subpasses and dependencies.

use crate::resource::pipeline::PipelineStage;
use crate::util::format::{ImageAccess, TextureFormat, TextureLayout};
use std::ops::Range;
use vstd::prelude::*;

verus! {

pub type AttachmentLayout = TextureLayout;

/// What happens to the contents of an attachment when a render pass begins.
#[derive(Debug, Clone, Copy, PartialEq, Eq, Structural)]
pub enum AttachmentLoadOp {
    Load,
    Clear,
    DontCare,
}

/// What happens to the contents of an attachment when a render pass ends.
#[derive(Debug, Clone, Copy, PartialEq, Eq, Structural)]
pub enum AttachmentStoreOp {
    Store,
    DontCare,
}

pub type LoadOp = AttachmentLoadOp;

pub type StoreOp = AttachmentStoreOp;

/// `Range::clone`, which the derived `Clone` of `Attachment` and `SubpassDependency` calls.
/// No clause is stated of the result.
pub assume_specification<Idx: Clone>[ <Range<Idx> as Clone>::clone ](r: &Range<Idx>) -> Range<Idx>;

/// An image that a render pass reads or writes.
#[derive(Debug, Clone)]
pub struct Attachment {
    pub format: TextureFormat,
    pub load_op: AttachmentLoadOp,
    pub store_op: AttachmentStoreOp,
    /// The layout at the start of the pass up to the layout at its end.
    pub layouts: Range<AttachmentLayout>,
}

/// An attachment index together with the layout it is used in.
pub type AttachmentRef = (usize, AttachmentLayout);

/// The attachments one subpass uses.
#[derive(Debug, Clone, Default)]
pub struct SubpassDescriptor {
    pub colors: Vec<AttachmentRef>,
    pub depth_stencil: Option<AttachmentRef>,
    pub inputs: Vec<AttachmentRef>,
    pub resolves: Vec<AttachmentRef>,
    pub preserves: Vec<usize>,
}

/// An execution and memory dependency between two subpasses.
#[derive(Debug, Clone)]
pub struct SubpassDependency {
    /// Meaning this is a dependency fromSrc..toDst, where None is equal to VK_SUBPASS_EXTERNAL
    pub passes: Range<Option<u8>>,
    pub stages: Range<PipelineStage>,
    pub accesses: Range<ImageAccess>,
}

/// Describes a render pass; the render graph is its main user.
#[derive(Debug, Clone)]
pub struct RenderPassDescriptor {
    pub attachments: Vec<Attachment>,
    pub subpasses: Vec<SubpassDescriptor>,
    pub pass_dependencies: Vec<SubpassDependency>,
}

/// An attachment of a pass node of the render graph, with its load and store operations.
#[derive(Clone)]
pub struct PassAttachment<I: Clone + Copy> {
    pub index: I,
    pub load: LoadOp,
    pub store: StoreOp,
}

} // verus!
