//! Uniform data that is kept in one buffer per frame in flight: a write marks every frame's
//! buffer as out of date, and a frame's buffer is rewritten when that frame comes up.

use vstd::prelude::*;

verus! {

/// The buffers `B` of the frames in flight, whether each still has to be rewritten, and the
/// data `T` they should hold.
#[derive(Debug)]
pub struct SwapFrames<B, T> {
    buffers: Vec<B>,
    should_update: Vec<bool>,
    current_data: T,
}

impl<B, T> SwapFrames<B, T> {
    pub closed spec fn buffers_view(&self) -> Seq<B> {
        self.buffers@
    }

    pub closed spec fn pending(&self) -> Seq<bool> {
        self.should_update@
    }

    pub closed spec fn data(&self) -> T {
        self.current_data
    }

    /// One update flag per buffer.
    pub open spec fn wf(&self) -> bool {
        self.pending().len() == self.buffers_view().len()
    }

    /// The frames' buffers, already holding `initial_data`.
    pub fn new(buffers: Vec<B>, initial_data: T) -> (r: Self)
        ensures
            r.wf(),
            r.buffers_view() == buffers@,
            r.data() == initial_data,
            forall|i: int| 0 <= i < r.pending().len() ==> !#[trigger] r.pending()[i],
    {
        let mut should_update: Vec<bool> = Vec::new();
        let mut i: usize = 0;
        while i < buffers.len()
            invariant
                0 <= i <= buffers@.len(),
                should_update@.len() == i,
                forall|j: int| 0 <= j < i ==> !#[trigger] should_update@[j],
            decreases buffers@.len() - i,
        {
            should_update.push(false);
            i = i + 1;
        }
        SwapFrames { buffers, should_update, current_data: initial_data }
    }

    /// The number of frames in flight.
    pub fn len(&self) -> (r: usize)
        ensures
            r == self.buffers_view().len(),
    {
        self.buffers.len()
    }

    /// Replaces the data and tells every frame that it should update.
    pub fn write(&mut self, new_data: T)
        requires
            old(self).wf(),
        ensures
            final(self).wf(),
            final(self).data() == new_data,
            final(self).buffers_view() == old(self).buffers_view(),
            forall|i: int| 0 <= i < final(self).pending().len() ==> #[trigger] final(self).pending()[i],
    {
        self.current_data = new_data;
        let mut i: usize = 0;
        let len = self.should_update.len();
        while i < len
            invariant
                0 <= i <= len,
                len == self.should_update@.len(),
                len == old(self).pending().len(),
                old(self).wf(),
                self.current_data == new_data,
                self.buffers@ == old(self).buffers_view(),
                forall|j: int| 0 <= j < i ==> #[trigger] self.should_update@[j],
            decreases len - i,
        {
            self.should_update.set(i, true);
            i = i + 1;
        }
    }

    /// The buffer of frame `frame_idx` and the data it has to be rewritten with, when the
    /// data changed since the frames were created; `None` while it is up to date.
    pub fn frame(&self, frame_idx: usize) -> (r: Option<(&B, &T)>)
        requires
            self.wf(),
            frame_idx < self.buffers_view().len(),
        ensures
            match r {
                Some((b, d)) => self.pending()[frame_idx as int] && *b == self.buffers_view()[frame_idx as int]
                    && *d == self.data(),
                None => !self.pending()[frame_idx as int],
            },
    {
        if self.should_update[frame_idx] {
            Some((&self.buffers[frame_idx], &self.current_data))
        } else {
            None
        }
    }

    /// The buffer of frame `frame_idx`.
    pub fn buffer(&self, frame_idx: usize) -> (r: &B)
        requires
            frame_idx < self.buffers_view().len(),
        ensures
            *r == self.buffers_view()[frame_idx as int],
    {
        &self.buffers[frame_idx]
    }

    /// Exclusive access to the buffer of frame `frame_idx`; whatever is written through it is
    /// that frame's buffer afterwards, and nothing else changes.
    pub fn buffer_mut(&mut self, frame_idx: usize) -> (r: &mut B)
        requires
            frame_idx < old(self).buffers_view().len(),
        ensures
            *r == old(self).buffers_view()[frame_idx as int],
            final(self).buffers_view() == old(self).buffers_view().update(frame_idx as int, *final(r)),
            final(self).pending() == old(self).pending(),
            final(self).data() == old(self).data(),
    {
        &mut self.buffers[frame_idx]
    }
}

} // verus!
