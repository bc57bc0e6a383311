use vstd::prelude::*;

use crate::can::CanFrame;
use crate::frame::{CaptureView, CapturedFrameState};

verus! {

/// The ingestion loop's own memory between passes: the total frame count at
/// the last throughput sample.
pub struct CaptureLoop {
    pub frames_as_of_last_second: usize,
}

/// The state after the frame of one loop pass, if one was received, is
/// recorded at `now_nanos`.
pub open spec fn after_receive(v: CaptureView, received: Option<CanFrame>, now_nanos: u128) -> CaptureView {
    match received {
        Some(frame) => v.recorded(frame, now_nanos),
        None => v,
    }
}

/// A loop pass that receives nothing, on a state that holds no frames,
/// changes nothing: until a frame arrives the throughput stays as it was
/// (zero from a fresh state) and no sample is added to the history.
pub proof fn lemma_idle_pass_keeps_state(
    v: CaptureView,
    frames_as_of_last_second: usize,
    second_elapsed: bool,
    now_nanos: u128,
)
    requires
        v.total_count == 0,
    ensures
        after_receive(v, None, now_nanos) == v,
        second_elapsed ==> after_receive(v, None, now_nanos).sampled(
            frames_as_of_last_second,
            now_nanos,
        ) == v,
{
}

impl CaptureLoop {
    pub fn new() -> (r: Self)
        ensures
            r.frames_as_of_last_second == 0,
    {
        CaptureLoop { frames_as_of_last_second: 0 }
    }

    /// One pass of the ingestion loop. A `received` frame is recorded at
    /// `now_nanos`. Then, when a second has passed since the last sample,
    /// the throughput sample is taken against the remembered total, and the
    /// new total is remembered. Returns whether a sample was taken: the
    /// caller then restarts its one-second timer.
    pub fn step(
        &mut self,
        state: &mut CapturedFrameState,
        received: Option<CanFrame>,
        second_elapsed: bool,
        now_nanos: u128,
    ) -> (sampled: bool)
        requires
            old(state).wf(),
            received is Some ==> old(state)@.can_record(),
        ensures
            final(state).wf(),
            sampled == second_elapsed,
            ({
                let mid = after_receive(old(state)@, received, now_nanos);
                if second_elapsed {
                    &&& final(state)@ == mid.sampled(old(self).frames_as_of_last_second, now_nanos)
                    &&& final(self).frames_as_of_last_second == mid.total_count
                } else {
                    &&& final(state)@ == mid
                    &&& final(self).frames_as_of_last_second == old(self).frames_as_of_last_second
                }
            }),
    {
        match received {
            Some(frame) => {
                state.record(frame, now_nanos);
            },
            None => {},
        }
        if second_elapsed {
            self.frames_as_of_last_second = state.update_frames_per_second(
                self.frames_as_of_last_second,
                now_nanos,
            );
        }
        second_elapsed
    }
}

} // verus!
