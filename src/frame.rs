use std::collections::HashMap;
use vstd::prelude::*;
use vstd::std_specs::hash::spec_values_iter;
use vstd::std_specs::iter::IteratorSpec;

use crate::can::CanFrame;
use crate::frame_filter::{passes, FrameIdFilter};

verus! {

broadcast use vstd::std_specs::hash::group_hash_axioms;

/// A captured frame with its capture time and its place in arrival order.
#[derive(Clone, Copy, Debug)]
pub struct TimestampedFrame {
    pub frame: CanFrame,
    /// Capture time, in nanoseconds since the Unix epoch.
    pub timestamp_nanos: u128,
    pub frame_number: u64,
}

impl TimestampedFrame {
    /// `timestamp_nanos` is the wall-clock capture time in nanoseconds since
    /// the Unix epoch.
    pub fn new(frame: CanFrame, frame_number: u64, timestamp_nanos: u128) -> (r: Self)
        ensures
            r.frame == frame,
            r.frame_number == frame_number,
            r.timestamp_nanos == timestamp_nanos,
    {
        TimestampedFrame { frame, timestamp_nanos, frame_number }
    }

    /// Capture time in whole milliseconds since the Unix epoch.
    pub fn get_timestamp(&self) -> (r: u128)
        ensures
            r == self.timestamp_nanos / 1_000_000,
    {
        self.timestamp_nanos / 1_000_000
    }

    /// The frame's identifier as a number, without its standard/extended flag.
    pub fn get_numeric_id(&self) -> (r: u32)
        ensures
            r == self.frame.spec_id().value(),
            self.frame.spec_id().is_valid(),
    {
        self.frame.raw_id()
    }
}

/// The latest frame seen for one identifier, with how many frames carried it.
#[derive(Clone, Copy, Debug)]
pub struct CountedFrame {
    pub frame: CanFrame,
    pub capture_count: usize,
}

impl CountedFrame {
    pub fn new(frame: CanFrame) -> (r: Self)
        ensures
            r.frame == frame,
            r.capture_count == 0,
    {
        CountedFrame { frame, capture_count: 0 }
    }

    pub fn with_capture_count(frame: CanFrame, capture_count: usize) -> (r: Self)
        ensures
            r.frame == frame,
            r.capture_count == capture_count,
    {
        CountedFrame { frame, capture_count }
    }
}

/// The entries of `log` whose frame has the numeric identifier `id`, in log order.
pub open spec fn entries_with_id(log: Seq<TimestampedFrame>, id: u32) -> Seq<TimestampedFrame> {
    log.filter(|e: TimestampedFrame| e.frame.spec_id().value() == id)
}

/// The per-identifier summary of a log: one entry for each numeric identifier
/// that occurs in it, holding the latest frame with that identifier and the
/// number of frames that carried it.
pub open spec fn tally(log: Seq<TimestampedFrame>) -> Map<u32, CountedFrame> {
    Map::new(
        |id: u32| entries_with_id(log, id).len() > 0,
        |id: u32|
            CountedFrame {
                frame: entries_with_id(log, id).last().frame,
                capture_count: entries_with_id(log, id).len() as usize,
            },
    )
}

/// The sum of the occurrence counts of a finite map of counted frames.
pub open spec fn count_sum(m: Map<u32, CountedFrame>) -> nat
    decreases m.dom().len(),
{
    if m.dom().finite() && m.dom().len() > 0 {
        let id = m.dom().choose();
        m[id].capture_count as nat + count_sum(m.remove(id))
    } else {
        0
    }
}

/// Age in whole seconds of a sample taken at `sample_nanos`, seen at `now_nanos`;
/// zero for a sample that lies ahead of `now_nanos` (the clock went back).
pub open spec fn age_secs(now_nanos: u128, sample_nanos: u128) -> u128 {
    if now_nanos >= sample_nanos {
        ((now_nanos - sample_nanos) / 1_000_000_000) as u128
    } else {
        0
    }
}

/// The first `n` elements of `s` taken from its end: newest first when `s`
/// is in arrival order.
pub open spec fn newest_first<A>(s: Seq<A>, n: nat) -> Seq<A> {
    s.reverse().take(if n < s.len() { n as int } else { s.len() as int })
}

/// The abstract contents of a [`CapturedFrameState`].
pub struct CaptureView {
    /// Every captured frame since the last clear, in arrival order.
    pub log: Seq<TimestampedFrame>,
    /// One counted frame per numeric identifier.
    pub by_id: Map<u32, CountedFrame>,
    pub total_count: usize,
    /// Frames seen in the last one-second window that saw any.
    pub throughput: usize,
    /// Throughput samples as (frames per second, sample time in nanoseconds).
    pub history: Seq<(usize, u128)>,
    /// The frame number the next captured frame gets.
    pub next_frame_number: u64,
}

impl CaptureView {
    /// Frame numbers in the log are consecutive and end just below
    /// `next_frame_number`.
    pub open spec fn numbered(self) -> bool {
        &&& self.log.len() <= self.next_frame_number
        &&& forall|i: int|
            0 <= i < self.log.len() ==> #[trigger] self.log[i].frame_number + (self.log.len() - i)
                == self.next_frame_number
    }

    pub open spec fn well_formed(self) -> bool {
        &&& self.total_count == self.log.len()
        &&& self.by_id == tally(self.log)
        &&& self.numbered()
    }

    /// Room for one more frame: both counters can still be incremented.
    pub open spec fn can_record(self) -> bool {
        &&& self.total_count < usize::MAX
        &&& self.next_frame_number < u64::MAX
    }

    /// The state after `frame` arrives at `timestamp_nanos`.
    pub open spec fn recorded(self, frame: CanFrame, timestamp_nanos: u128) -> CaptureView {
        let id = frame.spec_id().value();
        let count: int = if self.by_id.contains_key(id) {
            self.by_id[id].capture_count + 1
        } else {
            1
        };
        CaptureView {
            log: self.log.push(
                TimestampedFrame { frame, timestamp_nanos, frame_number: self.next_frame_number },
            ),
            by_id: self.by_id.insert(id, CountedFrame { frame, capture_count: count as usize }),
            total_count: (self.total_count + 1) as usize,
            next_frame_number: (self.next_frame_number + 1) as u64,
            ..self
        }
    }

    /// The state after a clear: no frames, no counts, zero throughput. The
    /// throughput history and the frame numbering carry on.
    pub open spec fn cleared(self) -> CaptureView {
        CaptureView {
            log: Seq::empty(),
            by_id: Map::empty(),
            total_count: 0,
            throughput: 0,
            ..self
        }
    }

    /// The state after a once-a-second throughput sample, given the total
    /// count at the previous sample. A second without new frames leaves the
    /// throughput as it was and adds no sample.
    pub open spec fn sampled(self, previous_total: usize, now_nanos: u128) -> CaptureView {
        if self.total_count > previous_total {
            let rate = (self.total_count - previous_total) as usize;
            CaptureView {
                throughput: rate,
                history: self.history.push((rate, now_nanos)),
                ..self
            }
        } else {
            self
        }
    }
}

/// Everything captured from the bus: the chronological log, the
/// per-identifier counters and the throughput figures.
pub struct CapturedFrameState {
    captured_frames_list: Vec<TimestampedFrame>,
    captured_frames_set: HashMap<u32, CountedFrame>,
    total_frame_count: usize,
    frames_per_second: usize,
    frames_per_second_history: Vec<(usize, u128)>,
    next_frame_number: u64,
}

impl View for CapturedFrameState {
    type V = CaptureView;

    closed spec fn view(&self) -> CaptureView {
        CaptureView {
            log: self.captured_frames_list@,
            by_id: self.captured_frames_set@,
            total_count: self.total_frame_count,
            throughput: self.frames_per_second,
            history: self.frames_per_second_history@,
            next_frame_number: self.next_frame_number,
        }
    }
}

impl CapturedFrameState {
    pub open spec fn wf(&self) -> bool {
        self@.well_formed()
    }

    pub fn new() -> (r: Self)
        ensures
            r.wf(),
            r@.log.len() == 0,
            r@.by_id == Map::<u32, CountedFrame>::empty(),
            r@.total_count == 0,
            r@.throughput == 0,
            r@.history.len() == 0,
            r@.next_frame_number == 0,
    {
        let r = CapturedFrameState {
            captured_frames_list: Vec::new(),
            captured_frames_set: HashMap::new(),
            total_frame_count: 0,
            frames_per_second: 0,
            frames_per_second_history: Vec::new(),
            next_frame_number: 0,
        };
        proof {
            lemma_tally_empty(r.captured_frames_list@);
        }
        r
    }

    /// Forgets every captured frame and resets the counts and the throughput.
    /// The throughput history is kept.
    pub fn clear_captured_frames(&mut self)
        requires
            old(self).wf(),
        ensures
            final(self).wf(),
            final(self)@ == old(self)@.cleared(),
    {
        self.captured_frames_list.clear();
        self.captured_frames_set.clear();
        self.total_frame_count = 0;
        self.frames_per_second = 0;
        proof {
            lemma_tally_empty(self.captured_frames_list@);
        }
    }

    /// Appends `frame`, captured at `timestamp_nanos`, to the log under the
    /// next frame number, counts it under its identifier, and returns its
    /// frame number.
    pub fn record(&mut self, frame: CanFrame, timestamp_nanos: u128) -> (number: u64)
        requires
            old(self).wf(),
            old(self)@.can_record(),
        ensures
            final(self).wf(),
            final(self)@ == old(self)@.recorded(frame, timestamp_nanos),
            number == old(self)@.next_frame_number,
    {
        let ghost before = self@;
        let number = self.next_frame_number;
        self.captured_frames_list.push(TimestampedFrame::new(frame, number, timestamp_nanos));
        let id = frame.raw_id();
        proof {
            lemma_tally_record(before.log, frame, timestamp_nanos, number);
            if before.by_id.contains_key(id) {
                lemma_tally_count_bound(before.log, id);
            }
        }
        let old_count: usize = match self.captured_frames_set.get(&id) {
            Some(counted) => counted.capture_count,
            None => 0,
        };
        self.captured_frames_set.insert(id, CountedFrame::with_capture_count(frame, old_count + 1));
        self.total_frame_count = self.total_frame_count + 1;
        self.next_frame_number = number + 1;
        proof {
            let after = self@;
            assert forall|i: int| 0 <= i < after.log.len() implies #[trigger] after.log[i].frame_number
                + (after.log.len() - i) == after.next_frame_number by {
                if i < before.log.len() {
                    assert(after.log[i] == before.log[i]);
                }
            }
        }
        number
    }

    /// Takes the once-a-second throughput sample: when frames arrived since
    /// the previous sample, whose total was `tot_frames_as_of_last_second`,
    /// their number becomes the throughput and is added to the history at
    /// `now_nanos`. Returns the total count, the baseline for the next sample.
    pub fn update_frames_per_second(
        &mut self,
        tot_frames_as_of_last_second: usize,
        now_nanos: u128,
    ) -> (total: usize)
        requires
            old(self).wf(),
        ensures
            final(self).wf(),
            final(self)@ == old(self)@.sampled(tot_frames_as_of_last_second, now_nanos),
            total == old(self)@.total_count,
    {
        if self.total_frame_count > tot_frames_as_of_last_second {
            self.frames_per_second = self.total_frame_count - tot_frames_as_of_last_second;
            self.frames_per_second_history.push((self.frames_per_second, now_nanos));
        }
        self.total_frame_count
    }

    /// The chronological log, oldest first.
    pub fn captured_frames_list(&self) -> (r: &Vec<TimestampedFrame>)
        ensures
            r@ == self@.log,
    {
        &self.captured_frames_list
    }

    pub fn captured_frames_list_len(&self) -> (r: usize)
        ensures
            r == self@.log.len(),
    {
        self.captured_frames_list.len()
    }

    /// The number of distinct numeric identifiers seen since the last clear.
    pub fn unique_frame_count(&self) -> (r: usize)
        ensures
            r == self@.by_id.len(),
    {
        self.captured_frames_set.len()
    }

    pub fn total_frame_count(&self) -> (r: usize)
        ensures
            r == self@.total_count,
    {
        self.total_frame_count
    }

    pub fn frames_per_second(&self) -> (r: usize)
        ensures
            r == self@.throughput,
    {
        self.frames_per_second
    }

    /// Room for one more frame: `record` may be called.
    pub fn can_record(&self) -> (r: bool)
        ensures
            r == self@.can_record(),
    {
        self.total_frame_count < usize::MAX && self.next_frame_number < u64::MAX
    }

    /// The counted frame for numeric identifier `id`, if any frame carried it.
    pub fn counted_frame(&self, id: u32) -> (r: Option<CountedFrame>)
        ensures
            r == (if self@.by_id.contains_key(id) {
                Some(self@.by_id[id])
            } else {
                None
            }),
    {
        match self.captured_frames_set.get(&id) {
            Some(c) => Some(*c),
            None => None,
        }
    }

    /// Every counted frame, one per identifier, in the map's own order.
    pub fn counted_frames(&self) -> (r: Vec<CountedFrame>)
        ensures
            r@.len() == self@.by_id.len(),
            r@.to_set() == self@.by_id.values(),
    {
        let ghost all = spec_values_iter(&self.captured_frames_set).remaining();
        let mut out: Vec<CountedFrame> = Vec::new();
        for c in it: self.captured_frames_set.values()
            invariant
                it.seq() == all,
                all.len() == self@.by_id.len(),
                all.unref().to_set() == self@.by_id.values(),
                out@ == all.take(it.index()).unref(),
        {
            proof {
                assert(all.take(it.index()).push(c) =~= all.take(it.index() + 1));
            }
            out.push(*c);
        }
        assert(out@.len() == all.len());
        assert(out@ =~= all.unref());
        out
    }

    /// The throughput history as (age in whole seconds at `now_nanos`,
    /// frames per second), oldest sample first.
    pub fn frames_per_second_history(&self, now_nanos: u128) -> (r: Vec<(u128, usize)>)
        ensures
            r@.len() == self@.history.len(),
            forall|i: int|
                0 <= i < r@.len() ==> #[trigger] r@[i] == (
                    age_secs(now_nanos, self@.history[i].1),
                    self@.history[i].0,
                ),
    {
        let mut out: Vec<(u128, usize)> = Vec::new();
        let mut i: usize = 0;
        while i < self.frames_per_second_history.len()
            invariant
                i <= self@.history.len(),
                self@.history == self.frames_per_second_history@,
                out@.len() == i,
                forall|j: int|
                    0 <= j < i ==> #[trigger] out@[j] == (
                        age_secs(now_nanos, self@.history[j].1),
                        self@.history[j].0,
                    ),
            decreases self@.history.len() - i,
        {
            let (rate, sampled_at) = self.frames_per_second_history[i];
            let age: u128 = if now_nanos >= sampled_at {
                (now_nanos - sampled_at) / 1_000_000_000
            } else {
                0
            };
            out.push((age, rate));
            i = i + 1;
        }
        out
    }

    /// At most `max` of the captured frames that pass `filter`, newest first.
    pub fn recent_frames(&self, filter: Option<&FrameIdFilter>, max: usize) -> (r: Vec<
        TimestampedFrame,
    >)
        ensures
            r@ == newest_first(
                self@.log.filter(|e: TimestampedFrame| passes(filter, e)),
                max as nat,
            ),
    {
        let ghost log = self@.log;
        let ghost pred = |e: TimestampedFrame| passes(filter, e);
        let len = self.captured_frames_list.len();
        let mut out: Vec<TimestampedFrame> = Vec::new();
        let mut i: usize = len;
        while i > 0 && out.len() < max
            invariant
                log == self.captured_frames_list@,
                pred == (|e: TimestampedFrame| passes(filter, e)),
                len == log.len(),
                i <= len,
                out@.len() <= max,
                out@ == log.subrange(i as int, len as int).filter(pred).reverse(),
            decreases i,
        {
            i = i - 1;
            let e = self.captured_frames_list[i];
            let keep = match filter {
                Some(f) => f.matches(&e),
                None => true,
            };
            proof {
                assert(keep == pred(e));
                let rest = log.subrange(i + 1, len as int);
                assert(log.subrange(i as int, len as int) =~= seq![e] + rest);
                rest.lemma_filter_prepend(e, pred);
                lemma_reverse_concat(if pred(e) { seq![e] } else { Seq::empty() }, rest.filter(pred));
                assert(seq![e].reverse() =~= seq![e]);
                assert(Seq::<TimestampedFrame>::empty().reverse() =~= Seq::<TimestampedFrame>::empty());
                assert(rest.filter(pred).reverse() + Seq::<TimestampedFrame>::empty() =~= rest.filter(pred).reverse());
            }
            if keep {
                out.push(e);
            }
        }
        proof {
            let front = log.take(i as int);
            let back = log.subrange(i as int, len as int);
            assert(log =~= front + back);
            Seq::filter_distributes_over_add(front, back, pred);
            lemma_reverse_concat(front.filter(pred), back.filter(pred));
            let all = log.filter(pred).reverse();
            if i == 0 {
                assert(front.filter(pred) =~= Seq::<TimestampedFrame>::empty()) by {
                    reveal(Seq::filter);
                }
                assert(front.filter(pred).reverse() =~= Seq::<TimestampedFrame>::empty());
                assert(all =~= out@);
                assert(all.take(all.len() as int) =~= all);
            } else {
                assert(all.take(max as int) =~= out@);
            }
        }
        out
    }
}

impl Default for CapturedFrameState {
    fn default() -> (r: Self)
        ensures
            r.wf(),
            r@.log.len() == 0,
            r@.by_id == Map::<u32, CountedFrame>::empty(),
            r@.total_count == 0,
            r@.throughput == 0,
            r@.history.len() == 0,
            r@.next_frame_number == 0,
    {
        Self::new()
    }
}

proof fn lemma_reverse_concat<A>(a: Seq<A>, b: Seq<A>)
    ensures
        (a + b).reverse() == b.reverse() + a.reverse(),
{
    assert((a + b).reverse() =~= b.reverse() + a.reverse());
}

proof fn lemma_tally_empty(log: Seq<TimestampedFrame>)
    requires
        log.len() == 0,
    ensures
        tally(log) == Map::<u32, CountedFrame>::empty(),
{
    assert forall|id: u32| !(#[trigger] tally(log).contains_key(id)) by {
        reveal(Seq::filter);
    }
    assert(tally(log) =~= Map::<u32, CountedFrame>::empty());
}

/// Every count in the tally is at most the length of the log.
proof fn lemma_tally_count_bound(log: Seq<TimestampedFrame>, id: u32)
    ensures
        entries_with_id(log, id).len() <= log.len(),
{
    log.lemma_filter_len(|e: TimestampedFrame| e.frame.spec_id().value() == id);
}

/// Appending one entry to the log updates the tally at that entry's identifier alone.
proof fn lemma_tally_record(
    log: Seq<TimestampedFrame>,
    frame: CanFrame,
    timestamp_nanos: u128,
    number: u64,
)
    requires
        log.len() < usize::MAX,
    ensures
        ({
            let e = TimestampedFrame { frame, timestamp_nanos, frame_number: number };
            let id = frame.spec_id().value();
            let count: int = if tally(log).contains_key(id) {
                tally(log)[id].capture_count + 1
            } else {
                1
            };
            tally(log.push(e)) == tally(log).insert(
                id,
                CountedFrame { frame, capture_count: count as usize },
            )
        }),
{
    let e = TimestampedFrame { frame, timestamp_nanos, frame_number: number };
    let id = frame.spec_id().value();
    let new_log = log.push(e);
    let count: int = if tally(log).contains_key(id) {
        tally(log)[id].capture_count + 1
    } else {
        1
    };
    let expected = tally(log).insert(id, CountedFrame { frame, capture_count: count as usize });
    assert forall|k: u32| #[trigger] tally(new_log).contains_key(k) == expected.contains_key(k)
        && (tally(new_log).contains_key(k) ==> tally(new_log)[k] == expected[k]) by {
        let pred = |x: TimestampedFrame| x.frame.spec_id().value() == k;
        log.lemma_filter_push(e, pred);
        lemma_tally_count_bound(log, k);
    }
    assert(tally(new_log) =~= expected);
}

proof fn lemma_count_sum_remove(m: Map<u32, CountedFrame>, id: u32)
    requires
        m.dom().finite(),
        m.contains_key(id),
    ensures
        count_sum(m) == m[id].capture_count + count_sum(m.remove(id)),
    decreases m.dom().len(),
{
    assert(m.dom().len() > 0);
    let c = m.dom().choose();
    if c != id {
        let without_c = m.remove(c);
        let without_id = m.remove(id);
        lemma_count_sum_remove(without_c, id);
        lemma_count_sum_remove(without_id, c);
        assert(without_c.remove(id) =~= without_id.remove(c));
    }
}

/// The tally of a log has finitely many identifiers, and its counts add up to
/// the length of the log.
proof fn lemma_tally_sum(log: Seq<TimestampedFrame>)
    requires
        log.len() <= usize::MAX,
    ensures
        tally(log).dom().finite(),
        count_sum(tally(log)) == log.len(),
    decreases log.len(),
{
    if log.len() == 0 {
        lemma_tally_empty(log);
        assert(tally(log).dom() =~= Set::<u32>::empty());
    } else {
        let prev = log.drop_last();
        let e = log.last();
        let id = e.frame.spec_id().value();
        lemma_tally_sum(prev);
        lemma_tally_record(prev, e.frame, e.timestamp_nanos, e.frame_number);
        assert(prev.push(e) =~= log);
        let before = tally(prev);
        let after = tally(log);
        lemma_count_sum_remove(after, id);
        if before.contains_key(id) {
            lemma_tally_count_bound(prev, id);
            lemma_count_sum_remove(before, id);
            assert(after.remove(id) =~= before.remove(id));
        } else {
            assert(after.remove(id) =~= before);
        }
    }
}

/// In every well-formed state, and so after any sequence of operations, the
/// per-identifier occurrence counts add up to the total count, which is the
/// length of the log.
pub proof fn lemma_counts_sum_to_total(v: CaptureView)
    requires
        v.well_formed(),
    ensures
        count_sum(v.by_id) == v.total_count,
        v.total_count == v.log.len(),
{
    lemma_tally_sum(v.log);
}

/// In every well-formed state, of two frames in the log the one that stands
/// earlier has the smaller frame number.
pub proof fn lemma_log_in_frame_number_order(v: CaptureView, i: int, j: int)
    requires
        v.well_formed(),
        0 <= i < j < v.log.len(),
    ensures
        v.log[i].frame_number < v.log[j].frame_number,
{
    assert(v.log[i].frame_number + (v.log.len() - i) == v.next_frame_number);
    assert(v.log[j].frame_number + (v.log.len() - j) == v.next_frame_number);
}

/// Of two frames recorded one after the other, the first gets the smaller
/// frame number and stands earlier in the log.
pub proof fn lemma_record_order(
    v: CaptureView,
    first: CanFrame,
    first_nanos: u128,
    second: CanFrame,
    second_nanos: u128,
)
    requires
        v.well_formed(),
        v.can_record(),
        v.recorded(first, first_nanos).can_record(),
    ensures
        ({
            let mid = v.recorded(first, first_nanos);
            let end = mid.recorded(second, second_nanos);
            let i = v.log.len() as int;
            &&& end.log.len() == i + 2
            &&& end.log[i].frame == first
            &&& end.log[i + 1].frame == second
            &&& end.log[i].frame_number == mid.log.last().frame_number
            &&& end.log[i + 1].frame_number == end.log.last().frame_number
            &&& end.log[i].frame_number < end.log[i + 1].frame_number
        }),
{
}

/// Clearing twice leaves the state that clearing once leaves: an empty log,
/// no counted frames, and zero counts.
pub proof fn lemma_clear_idempotent(v: CaptureView)
    ensures
        v.cleared().cleared() == v.cleared(),
        v.cleared().log.len() == 0,
        v.cleared().by_id.dom().len() == 0,
        v.cleared().total_count == 0,
        v.cleared().throughput == 0,
{
}

} // verus!
