//! Single-slot handoff of completed frames from the network context to the
//! LED output context.
//!
//! Publishing never blocks and never queues: a new frame replaces any frame
//! not yet consumed, so the display always shows the most recent complete
//! state and memory use stays constant however fast frames arrive.

use crate::pixel::Rgb;
use vstd::prelude::*;

verus! {

/// At most one pending completed frame.
pub struct FrameHandoff {
    slot: Option<Vec<Rgb>>,
}

impl View for FrameHandoff {
    type V = Option<Seq<Rgb>>;

    closed spec fn view(&self) -> Option<Seq<Rgb>> {
        match self.slot {
            Some(f) => Some(f@),
            None => None,
        }
    }
}

/// The slot after a frame is published: the new frame, whatever was there.
pub open spec fn spec_publish(slot: Option<Seq<Rgb>>, frame: Seq<Rgb>) -> Option<Seq<Rgb>> {
    Some(frame)
}

/// What a take returns and leaves behind: the pending frame if any, and an
/// empty slot.
pub open spec fn spec_take(slot: Option<Seq<Rgb>>) -> (Option<Seq<Rgb>>, Option<Seq<Rgb>>) {
    (slot, None)
}

impl FrameHandoff {
    /// An empty handoff: nothing pending.
    pub fn new() -> (r: FrameHandoff)
        ensures
            r@ is None,
    {
        FrameHandoff { slot: None }
    }

    /// Publish a completed frame, replacing any frame not yet consumed. The
    /// producer never blocks.
    pub fn publish(&mut self, frame: Vec<Rgb>)
        ensures
            final(self)@ == spec_publish(old(self)@, frame@),
    {
        self.slot = Some(frame);
    }

    /// Take the most recently published frame if one is pending; never
    /// blocks.
    pub fn take_latest(&mut self) -> (r: Option<Vec<Rgb>>)
        ensures
            final(self)@ == spec_take(old(self)@).1,
            match (r, spec_take(old(self)@).0) {
                (Some(v), Some(s)) => v@ == s,
                (None, None) => true,
                _ => false,
            },
    {
        let r = self.slot.take();
        r
    }
}

/// Coalescing law: publishing two frames before any take leaves exactly the
/// later one, and the earlier one is unobservable.
pub proof fn lemma_coalescing(slot: Option<Seq<Rgb>>, first: Seq<Rgb>, second: Seq<Rgb>)
    ensures
        spec_take(spec_publish(spec_publish(slot, first), second)).0 == Some(second),
        spec_take(spec_publish(spec_publish(slot, first), second)).1 == Option::<Seq<Rgb>>::None,
{
}

} // verus!
