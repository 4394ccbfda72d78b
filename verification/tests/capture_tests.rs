use zync::capture::{
    first_stream, new_screen, primary_monitor, CaptureBackend, CaptureError, CaptureStep,
    FrameSlot, Platform, FRAME_GRACE_MS, STREAM_FRAME_RATE, STREAM_MAX_BUFFERS,
};
use zync::frame::Frame;

fn filled(width: u32, height: u32, value: u8) -> Vec<u8> {
    vec![value; (4 * width * height) as usize]
}

fn delivered(step: CaptureStep) -> Frame {
    match step {
        CaptureStep::Deliver(frame) => frame,
        CaptureStep::Wait(_) => panic!("asked to wait"),
        CaptureStep::Fail(_) => panic!("failed"),
    }
}

#[test]
fn linux_streams_where_the_marker_is_set() {
    assert_eq!(new_screen(Platform::Linux, true), Ok(CaptureBackend::Streaming));
}

#[test]
fn linux_falls_back_to_synchronous_capture() {
    assert_eq!(new_screen(Platform::Linux, false), Ok(CaptureBackend::Synchronous));
}

#[test]
fn other_platforms_are_not_supported() {
    for marker in [false, true] {
        assert_eq!(new_screen(Platform::Windows, marker), Err(CaptureError::UnsupportedPlatform));
        assert_eq!(new_screen(Platform::MacOs, marker), Err(CaptureError::UnsupportedPlatform));
    }
}

#[test]
fn the_first_primary_monitor_is_taken() {
    assert_eq!(primary_monitor(&vec![Some(false), Some(true), Some(true)]), Ok(1));
    assert_eq!(primary_monitor(&vec![Some(true)]), Ok(0));
    assert_eq!(primary_monitor(&vec![None, Some(false), None, Some(true)]), Ok(3));
}

#[test]
fn without_a_primary_monitor_there_is_no_capture() {
    assert_eq!(primary_monitor(&Vec::new()), Err(CaptureError::NoPrimaryMonitor));
    assert_eq!(primary_monitor(&vec![Some(false), None]), Err(CaptureError::NoPrimaryMonitor));
}

#[test]
fn the_first_stream_is_taken() {
    assert_eq!(first_stream(&vec![42, 7]), Ok(42));
    assert_eq!(first_stream(&vec![0]), Ok(0));
    assert_eq!(first_stream(&Vec::new()), Err(CaptureError::NoStream));
}

#[test]
fn the_stream_settings_drop_the_oldest_frame() {
    assert_eq!(STREAM_FRAME_RATE, 30);
    assert_eq!(STREAM_MAX_BUFFERS, 1);
}

#[test]
fn an_empty_slot_asks_to_wait_and_then_fails() {
    let slot = FrameSlot::new();
    assert!(slot.latest.is_none());
    assert!(matches!(slot.capture_frame(false), CaptureStep::Wait(ms) if ms == FRAME_GRACE_MS));
    assert_eq!(FRAME_GRACE_MS, 1000);
    assert!(matches!(
        slot.capture_frame(true),
        CaptureStep::Fail(CaptureError::NoFrameAvailable)
    ));
}

#[test]
fn a_landed_frame_is_delivered() {
    let mut slot = FrameSlot::new();
    assert!(slot.land(2, 3, filled(2, 3, 9)));
    for waited in [false, true] {
        let frame = delivered(slot.capture_frame(waited));
        assert_eq!((frame.width(), frame.height()), (2, 3));
        assert_eq!(frame.rgb_at(1, 2), Some((9, 9, 9)));
    }
}

#[test]
fn a_frame_that_arrives_during_the_wait_is_delivered() {
    let mut slot = FrameSlot::new();
    assert!(matches!(slot.capture_frame(false), CaptureStep::Wait(_)));
    assert!(slot.land(1, 1, filled(1, 1, 5)));
    let frame = delivered(slot.capture_frame(true));
    assert_eq!(frame.rgb_at(0, 0), Some((5, 5, 5)));
}

#[test]
fn the_newest_frame_wins() {
    let mut slot = FrameSlot::new();
    assert!(slot.land(1, 1, filled(1, 1, 1)));
    assert!(slot.land(2, 2, filled(2, 2, 2)));
    assert!(slot.land(3, 1, filled(3, 1, 3)));
    let frame = delivered(slot.capture_frame(false));
    assert_eq!((frame.width(), frame.height()), (3, 1));
    assert_eq!(frame.rgb_at(2, 0), Some((3, 3, 3)));
}

#[test]
fn reading_leaves_the_frame_in_the_slot() {
    let mut slot = FrameSlot::new();
    assert!(slot.land(1, 1, filled(1, 1, 8)));
    let first = delivered(slot.capture_frame(false));
    let second = delivered(slot.capture_frame(false));
    assert_eq!(first.rgb_at(0, 0), second.rgb_at(0, 0));
}

#[test]
fn a_short_buffer_is_dropped() {
    let mut slot = FrameSlot::new();
    assert!(!slot.land(2, 2, vec![0; 15]));
    assert!(slot.latest.is_none());
    assert!(slot.land(1, 1, filled(1, 1, 4)));
    assert!(!slot.land(2, 2, vec![0; 15]));
    let frame = delivered(slot.capture_frame(false));
    assert_eq!((frame.width(), frame.height()), (1, 1));
    assert_eq!(frame.rgb_at(0, 0), Some((4, 4, 4)));
}

#[test]
fn a_negative_dimension_is_read_as_a_large_one() {
    let mut slot = FrameSlot::new();
    assert!(!slot.land(-1, 1, vec![0; 64]));
    assert!(!slot.land(1, -1, vec![0; 64]));
    assert!(slot.latest.is_none());
    // no rows: no bytes are needed, but those of one row must be countable
    let countable = 4 * (u32::MAX as u64) <= usize::MAX as u64;
    assert_eq!(slot.land(-1, 0, Vec::new()), countable);
    if countable {
        let frame = delivered(slot.capture_frame(false));
        assert_eq!((frame.width(), frame.height()), (u32::MAX, 0));
    } else {
        assert!(slot.latest.is_none());
    }
}

#[test]
fn store_replaces_the_frame() {
    let mut slot = FrameSlot::new();
    slot.store(Frame::from_raw(1, 1, filled(1, 1, 1)).expect("fits"));
    slot.store(Frame::from_raw(1, 2, filled(1, 2, 6)).expect("fits"));
    let frame = delivered(slot.capture_frame(true));
    assert_eq!((frame.width(), frame.height()), (1, 2));
    assert_eq!(frame.rgb_at(0, 1), Some((6, 6, 6)));
}
