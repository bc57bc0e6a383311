use can_viewer::{
    CanFrame, CanId, CaptureLoop, CapturedFrameState, FrameIdFilter, TimestampedFrame,
};

fn data_frame(id: CanId, data: &[u8]) -> CanFrame {
    CanFrame::new(id, data).expect("payload of at most eight bytes")
}

fn std_frame(raw: u16) -> CanFrame {
    data_frame(CanId::Standard(raw), &[raw as u8])
}

fn numbers(frames: &[TimestampedFrame]) -> Vec<u64> {
    frames.iter().map(|f| f.frame_number).collect()
}

#[test]
fn three_frames_with_a_repeated_identifier() {
    let mut state = CapturedFrameState::new();
    state.record(std_frame(0x100), 1);
    state.record(std_frame(0x200), 2);
    state.record(data_frame(CanId::Standard(0x100), &[9, 9]), 3);

    assert_eq!(state.total_frame_count(), 3);
    assert_eq!(state.unique_frame_count(), 2);
    assert_eq!(state.captured_frames_list_len(), 3);
    let counted = state.counted_frame(0x100).expect("identifier was seen");
    assert_eq!(counted.capture_count, 2);
    assert_eq!(counted.frame.data(), vec![9, 9]);
    assert_eq!(state.counted_frame(0x200).unwrap().capture_count, 1);
    assert!(state.counted_frame(0x300).is_none());
    assert_eq!(state.captured_frames_list()[2].frame.raw_id(), 0x100);
    assert_eq!(state.captured_frames_list()[2].get_numeric_id(), 0x100);
}

#[test]
fn fresh_state_has_no_history_and_no_throughput() {
    let state = CapturedFrameState::new();
    assert!(state.frames_per_second_history(5_000_000_000).is_empty());
    assert_eq!(state.frames_per_second(), 0);
    assert_eq!(state.total_frame_count(), 0);
    assert_eq!(state.unique_frame_count(), 0);
    let by_default = CapturedFrameState::default();
    assert_eq!(by_default.frames_per_second(), 0);
    assert_eq!(by_default.captured_frames_list_len(), 0);
}

#[test]
fn throughput_is_kept_on_a_quiet_second() {
    let mut state = CapturedFrameState::new();
    let mut readings = Vec::new();
    let mut previous = state.update_frames_per_second(0, 1_000_000_000);
    assert_eq!(previous, 0);
    for _ in 0..5 {
        state.record(std_frame(0x10), 0);
    }
    previous = state.update_frames_per_second(previous, 2_000_000_000);
    readings.push(state.frames_per_second());
    previous = state.update_frames_per_second(previous, 3_000_000_000);
    readings.push(state.frames_per_second());
    for _ in 0..7 {
        state.record(std_frame(0x10), 0);
    }
    previous = state.update_frames_per_second(previous, 4_000_000_000);
    readings.push(state.frames_per_second());

    assert_eq!(readings, vec![5, 5, 7]);
    assert_eq!(previous, 12);
    let history = state.frames_per_second_history(4_000_000_000);
    assert_eq!(history, vec![(2, 5), (0, 7)]);
}

#[test]
fn history_ages_are_whole_seconds_and_never_negative() {
    let mut state = CapturedFrameState::new();
    state.record(std_frame(1), 0);
    state.update_frames_per_second(0, 10_000_000_000);
    assert_eq!(state.frames_per_second_history(12_999_999_999), vec![(2, 1)]);
    assert_eq!(state.frames_per_second_history(13_000_000_000), vec![(3, 1)]);
    assert_eq!(state.frames_per_second_history(9_000_000_000), vec![(0, 1)]);
}

#[test]
fn counts_add_up_to_the_total() {
    let mut state = CapturedFrameState::new();
    let ids = [1u16, 2, 1, 3, 3, 3, 7, 1];
    for (i, id) in ids.iter().enumerate() {
        state.record(std_frame(*id), i as u128);
    }
    let sum: usize = state.counted_frames().iter().map(|c| c.capture_count).sum();
    assert_eq!(sum, state.total_frame_count());
    assert_eq!(sum, state.captured_frames_list_len());
    assert_eq!(state.counted_frames().len(), 4);
}

#[test]
fn frame_numbers_follow_arrival_order() {
    let mut state = CapturedFrameState::new();
    let first = state.record(std_frame(0x20), 100);
    let second = state.record(std_frame(0x10), 50);
    let third = state.record(std_frame(0x20), 75);
    assert_eq!((first, second, third), (0, 1, 2));
    assert_eq!(numbers(state.captured_frames_list()), vec![0, 1, 2]);
    state.clear_captured_frames();
    let after_clear = state.record(std_frame(0x20), 80);
    assert_eq!(after_clear, 3);
    assert_eq!(numbers(state.captured_frames_list()), vec![3]);
}

#[test]
fn clearing_twice_is_clearing_once() {
    let mut state = CapturedFrameState::new();
    state.record(std_frame(1), 1);
    state.record(std_frame(2), 2);
    state.update_frames_per_second(0, 1_000_000_000);
    state.clear_captured_frames();
    let once = (
        state.total_frame_count(),
        state.unique_frame_count(),
        state.captured_frames_list_len(),
        state.frames_per_second(),
        state.frames_per_second_history(1_000_000_000),
    );
    state.clear_captured_frames();
    let twice = (
        state.total_frame_count(),
        state.unique_frame_count(),
        state.captured_frames_list_len(),
        state.frames_per_second(),
        state.frames_per_second_history(1_000_000_000),
    );
    assert_eq!(once, twice);
    assert_eq!(once.0, 0);
    assert_eq!(once.1, 0);
    assert_eq!(once.3, 0);
    assert_eq!(once.4, vec![(0, 2)]);
}

#[test]
fn filter_keeps_listed_identifiers_in_order() {
    let mut state = CapturedFrameState::new();
    state.record(std_frame(0x100), 0);
    state.record(data_frame(CanId::Extended(0x100), &[]), 1);
    state.record(std_frame(0x200), 2);
    state.record(std_frame(0x100), 3);
    state.record(std_frame(0x300), 4);
    let filter = FrameIdFilter::new(vec![CanId::Standard(0x100), CanId::Standard(0x300)]);
    let kept = filter.apply(state.captured_frames_list());
    assert_eq!(numbers(&kept), vec![0, 3, 4]);
    let extended = FrameIdFilter::new(vec![CanId::Extended(0x100)]);
    assert_eq!(numbers(&extended.apply(state.captured_frames_list())), vec![1]);
    let nothing = FrameIdFilter::new(vec![]);
    assert!(nothing.apply(state.captured_frames_list()).is_empty());
}

#[test]
fn recent_frames_are_newest_first_and_bounded() {
    let mut state = CapturedFrameState::new();
    for id in [1u16, 2, 1, 2, 1] {
        state.record(std_frame(id), 0);
    }
    assert_eq!(numbers(&state.recent_frames(None, 3)), vec![4, 3, 2]);
    assert_eq!(numbers(&state.recent_frames(None, 10)), vec![4, 3, 2, 1, 0]);
    assert!(state.recent_frames(None, 0).is_empty());
    let ones = FrameIdFilter::new(vec![CanId::Standard(1)]);
    assert_eq!(numbers(&state.recent_frames(Some(&ones), 2)), vec![4, 2]);
    assert_eq!(numbers(&state.recent_frames(Some(&ones), 9)), vec![4, 2, 0]);
}

#[test]
fn counted_frames_hold_latest_frame_per_identifier() {
    let mut state = CapturedFrameState::new();
    state.record(data_frame(CanId::Standard(5), &[1]), 0);
    state.record(data_frame(CanId::Extended(0x1234), &[2]), 0);
    state.record(data_frame(CanId::Standard(5), &[3]), 0);
    let mut counted: Vec<(u32, usize, Vec<u8>)> = state
        .counted_frames()
        .iter()
        .map(|c| (c.frame.raw_id(), c.capture_count, c.frame.data()))
        .collect();
    counted.sort();
    assert_eq!(counted, vec![(5, 2, vec![3]), (0x1234, 1, vec![2])]);
}

#[test]
fn standard_and_extended_with_same_number_share_a_counter() {
    let mut state = CapturedFrameState::new();
    state.record(data_frame(CanId::Standard(0x7), &[]), 0);
    state.record(data_frame(CanId::Extended(0x7), &[]), 0);
    assert_eq!(state.unique_frame_count(), 1);
    let counted = state.counted_frame(7).unwrap();
    assert_eq!(counted.capture_count, 2);
    assert!(counted.frame.is_extended());
}

#[test]
fn timestamp_is_reported_in_milliseconds() {
    let frame = TimestampedFrame::new(std_frame(1), 4, 1_234_567_890);
    assert_eq!(frame.get_timestamp(), 1_234);
    assert_eq!(frame.frame_number, 4);
    assert_eq!(frame.timestamp_nanos, 1_234_567_890);
}

#[test]
fn capture_loop_records_and_samples_once_a_second() {
    let mut state = CapturedFrameState::new();
    let mut ingest = CaptureLoop::new();
    assert!(!ingest.step(&mut state, Some(std_frame(1)), false, 10));
    assert!(!ingest.step(&mut state, None, false, 20));
    assert!(!ingest.step(&mut state, Some(std_frame(2)), false, 30));
    assert_eq!(state.total_frame_count(), 2);
    assert_eq!(state.frames_per_second(), 0);
    assert!(ingest.step(&mut state, Some(std_frame(3)), true, 1_000_000_000));
    assert_eq!(state.frames_per_second(), 3);
    assert_eq!(ingest.frames_as_of_last_second, 3);
    assert!(ingest.step(&mut state, None, true, 2_000_000_000));
    assert_eq!(state.frames_per_second(), 3);
    assert_eq!(state.frames_per_second_history(2_000_000_000), vec![(1, 3)]);
    assert!(state.can_record());
}
