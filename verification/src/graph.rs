//! Pass nodes of the render graph and the builder that assembles them.

use crate::resource::render_pass::{LoadOp, PassAttachment, StoreOp};
use std::borrow::Cow;
use vstd::prelude::*;

verus! {

/// A pass of the render graph: the attachments it writes and reads, its depth attachment,
/// and the callbacks that set it up (`Init`) and record it every frame (`Run`).
pub struct PassNode<I: Clone + Copy, Init, Run> {
    pub name: Cow<'static, str>,
    pub output_attachments: Vec<PassAttachment<I>>,
    pub input_attachments: Vec<PassAttachment<I>>,
    pub depth_attachment: Option<PassAttachment<I>>,
    pub init: Init,
    pub runner: Run,
}

/// A copy of a pass name: the same borrowed string, or an owned copy of an owned one.
fn copy_name(name: &Cow<'static, str>) -> (r: Cow<'static, str>)
    ensures
        r == *name,
{
    match name {
        Cow::Borrowed(s) => Cow::Borrowed(*s),
        Cow::Owned(s) => Cow::Owned(s.clone()),
    }
}

/// Builder for pass nodes.
pub struct PassNodeBuilder<I: Clone + Copy, Init, Run> {
    name: Cow<'static, str>,
    output_attachments: Vec<PassAttachment<I>>,
    input_attachments: Vec<PassAttachment<I>>,
    depth_attachment: Option<PassAttachment<I>>,
    init: Option<Init>,
    cb: Option<Run>,
}

impl<I: Clone + Copy, Init, Run> PassNodeBuilder<I, Init, Run> {
    pub closed spec fn name_view(&self) -> Cow<'static, str> {
        self.name
    }

    pub closed spec fn outputs(&self) -> Seq<PassAttachment<I>> {
        self.output_attachments@
    }

    pub closed spec fn inputs(&self) -> Seq<PassAttachment<I>> {
        self.input_attachments@
    }

    pub closed spec fn depth(&self) -> Option<PassAttachment<I>> {
        self.depth_attachment
    }

    pub closed spec fn init_callback(&self) -> Option<Init> {
        self.init
    }

    pub closed spec fn run_callback(&self) -> Option<Run> {
        self.cb
    }

    /// A builder for a pass named `name`, with no attachments and no callbacks yet.
    pub fn new(name: Cow<'static, str>) -> (r: Self)
        ensures
            r.name_view() == name,
            r.outputs() == Seq::<PassAttachment<I>>::empty(),
            r.inputs() == Seq::<PassAttachment<I>>::empty(),
            r.depth() is None,
            r.init_callback() is None,
            r.run_callback() is None,
    {
        Self {
            name,
            output_attachments: Vec::new(),
            input_attachments: Vec::new(),
            depth_attachment: None,
            init: None,
            cb: None,
        }
    }

    /// Adds an attachment the pass writes.
    pub fn add_output(&mut self, index: I, load: LoadOp, store: StoreOp) -> (r: &mut Self)
        ensures
            r.outputs() == old(self).outputs().push(PassAttachment { index, load, store }),
            r.name_view() == old(self).name_view(),
            r.inputs() == old(self).inputs(),
            r.depth() == old(self).depth(),
            r.init_callback() == old(self).init_callback(),
            r.run_callback() == old(self).run_callback(),
            *final(self) == *final(r),
    {
        self.output_attachments.push(PassAttachment { index, load, store });
        self
    }

    /// Adds an attachment the pass reads.
    pub fn add_input(&mut self, index: I, load: LoadOp, store: StoreOp) -> (r: &mut Self)
        ensures
            r.inputs() == old(self).inputs().push(PassAttachment { index, load, store }),
            r.name_view() == old(self).name_view(),
            r.outputs() == old(self).outputs(),
            r.depth() == old(self).depth(),
            r.init_callback() == old(self).init_callback(),
            r.run_callback() == old(self).run_callback(),
            *final(self) == *final(r),
    {
        self.input_attachments.push(PassAttachment { index, load, store });
        self
    }

    /// Sets the depth attachment of the pass, replacing any earlier one.
    pub fn set_depth(&mut self, index: I, load: LoadOp, store: StoreOp) -> (r: &mut Self)
        ensures
            r.depth() == Some(PassAttachment { index, load, store }),
            r.name_view() == old(self).name_view(),
            r.outputs() == old(self).outputs(),
            r.inputs() == old(self).inputs(),
            r.init_callback() == old(self).init_callback(),
            r.run_callback() == old(self).run_callback(),
            *final(self) == *final(r),
    {
        self.depth_attachment = Some(PassAttachment { index, load, store });
        self
    }

    /// Sets the callback that sets the pass up, replacing any earlier one.
    pub fn init(&mut self, func: Init) -> (r: &mut Self)
        ensures
            r.init_callback() == Some(func),
            r.name_view() == old(self).name_view(),
            r.outputs() == old(self).outputs(),
            r.inputs() == old(self).inputs(),
            r.depth() == old(self).depth(),
            r.run_callback() == old(self).run_callback(),
            *final(self) == *final(r),
    {
        self.init = Some(func);
        self
    }

    /// Sets the callback that records the pass, replacing any earlier one.
    pub fn callback(&mut self, func: Run) -> (r: &mut Self)
        ensures
            r.run_callback() == Some(func),
            r.name_view() == old(self).name_view(),
            r.outputs() == old(self).outputs(),
            r.inputs() == old(self).inputs(),
            r.depth() == old(self).depth(),
            r.init_callback() == old(self).init_callback(),
            *final(self) == *final(r),
    {
        self.cb = Some(func);
        self
    }

    /// Moves the attachments and callbacks gathered so far into a pass node, leaving the
    /// builder with its name and nothing else. Both callbacks must have been set.
    pub fn build(&mut self) -> (node: PassNode<I, Init, Run>)
        requires
            old(self).init_callback() is Some,
            old(self).run_callback() is Some,
        ensures
            node.name == old(self).name_view(),
            node.output_attachments@ == old(self).outputs(),
            node.input_attachments@ == old(self).inputs(),
            node.depth_attachment == old(self).depth(),
            node.init == old(self).init_callback()->0,
            node.runner == old(self).run_callback()->0,
            final(self).name_view() == old(self).name_view(),
            final(self).outputs() == Seq::<PassAttachment<I>>::empty(),
            final(self).inputs() == Seq::<PassAttachment<I>>::empty(),
            final(self).depth() is None,
            final(self).init_callback() is None,
            final(self).run_callback() is None,
    {
        let init = self.init.take().unwrap();
        let runner = self.cb.take().unwrap();
        let mut output_attachments = Vec::new();
        std::mem::swap(&mut output_attachments, &mut self.output_attachments);
        let mut input_attachments = Vec::new();
        std::mem::swap(&mut input_attachments, &mut self.input_attachments);
        PassNode {
            name: copy_name(&self.name),
            output_attachments,
            input_attachments,
            depth_attachment: self.depth_attachment.take(),
            init,
            runner,
        }
    }
}

} // verus!
