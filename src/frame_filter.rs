use vstd::prelude::*;

use crate::can::CanId;
use crate::frame::TimestampedFrame;

verus! {

/// A read-side selection of captured frames by identifier.
pub struct FrameIdFilter {
    pub ids: Vec<CanId>,
}

/// `e` carries one of `ids`; standard and extended identifiers never match
/// each other.
pub open spec fn id_listed(ids: Seq<CanId>, e: TimestampedFrame) -> bool {
    ids.contains(e.frame.spec_id())
}

/// `e` passes `filter`; with no filter every frame passes.
pub open spec fn passes(filter: Option<&FrameIdFilter>, e: TimestampedFrame) -> bool {
    match filter {
        Some(f) => id_listed(f.ids@, e),
        None => true,
    }
}

/// Whether `frame` carries one of `filter_ids`.
pub fn filter_frame_on_ids(frame: &TimestampedFrame, filter_ids: &[CanId]) -> (r: bool)
    ensures
        r == id_listed(filter_ids@, *frame),
{
    let id = frame.frame.id();
    let mut i: usize = 0;
    while i < filter_ids.len()
        invariant
            i <= filter_ids@.len(),
            id == frame.frame.spec_id(),
            forall|j: int| 0 <= j < i ==> filter_ids@[j] != id,
        decreases filter_ids@.len() - i,
    {
        if filter_ids[i] == id {
            return true;
        }
        i = i + 1;
    }
    false
}

impl FrameIdFilter {
    pub fn new(ids: Vec<CanId>) -> (r: Self)
        ensures
            r.ids@ == ids@,
    {
        FrameIdFilter { ids }
    }

    /// Whether `frame` passes this filter.
    pub fn matches(&self, frame: &TimestampedFrame) -> (r: bool)
        ensures
            r == id_listed(self.ids@, *frame),
    {
        filter_frame_on_ids(frame, self.ids.as_slice())
    }

    /// The frames of `frames` that pass this filter, in their original order.
    pub fn apply(&self, frames: &[TimestampedFrame]) -> (r: Vec<TimestampedFrame>)
        ensures
            r@ == frames@.filter(|e: TimestampedFrame| id_listed(self.ids@, e)),
    {
        let ghost pred = |e: TimestampedFrame| id_listed(self.ids@, e);
        let mut out: Vec<TimestampedFrame> = Vec::new();
        let mut i: usize = 0;
        while i < frames.len()
            invariant
                i <= frames@.len(),
                pred == (|e: TimestampedFrame| id_listed(self.ids@, e)),
                out@ == frames@.take(i as int).filter(pred),
            decreases frames@.len() - i,
        {
            let e = frames[i];
            let keep = self.matches(&e);
            proof {
                assert(keep == pred(e));
                frames@.take(i as int).lemma_filter_push(e, pred);
                assert(frames@.take(i as int).push(e) =~= frames@.take(i + 1));
            }
            if keep {
                out.push(e);
            }
            i = i + 1;
        }
        assert(frames@.take(i as int) =~= frames@);
        out
    }
}

} // verus!
