use zync::frame::Frame;

fn ramp(len: usize) -> Vec<u8> {
    (0..len).map(|i| (i % 251) as u8).collect()
}

#[test]
fn a_buffer_of_the_right_size_is_accepted() {
    let frame = Frame::from_raw(3, 2, ramp(24)).expect("24 bytes hold 3 x 2 pixels");
    assert_eq!(frame.width(), 3);
    assert_eq!(frame.height(), 2);
}

#[test]
fn a_buffer_that_is_too_short_is_refused() {
    assert!(Frame::from_raw(3, 2, ramp(23)).is_none());
    assert!(Frame::from_raw(1, 1, Vec::new()).is_none());
    assert!(Frame::from_raw(u32::MAX, u32::MAX, ramp(16)).is_none());
}

#[test]
fn a_longer_buffer_is_accepted() {
    let frame = Frame::from_raw(1, 1, ramp(9)).expect("9 bytes hold a pixel");
    assert_eq!(frame.rgb_at(0, 0), Some((0, 1, 2)));
}

#[test]
fn an_empty_frame_is_accepted() {
    let frame = Frame::from_raw(0, 7, Vec::new()).expect("no pixels need no bytes");
    assert_eq!(frame.width(), 0);
    assert_eq!(frame.height(), 7);
    assert_eq!(frame.rgb_at(0, 0), None);
}

#[test]
fn a_row_must_be_countable_even_without_rows() {
    let countable = 4 * 0x4000_0000u64 <= usize::MAX as u64;
    assert_eq!(Frame::from_raw(0x4000_0000, 0, Vec::new()).is_some(), countable);
    assert!(Frame::from_raw(0x3fff_ffff, 0, Vec::new()).is_some());
}

#[test]
fn pixels_are_read_row_by_row() {
    let frame = Frame::from_raw(3, 2, ramp(24)).expect("fits");
    assert_eq!(frame.rgb_at(0, 0), Some((0, 1, 2)));
    assert_eq!(frame.rgb_at(1, 0), Some((4, 5, 6)));
    assert_eq!(frame.rgb_at(2, 0), Some((8, 9, 10)));
    assert_eq!(frame.rgb_at(0, 1), Some((12, 13, 14)));
    assert_eq!(frame.rgb_at(2, 1), Some((20, 21, 22)));
}

#[test]
fn nothing_is_read_outside_the_frame() {
    let frame = Frame::from_raw(3, 2, ramp(24)).expect("fits");
    assert_eq!(frame.rgb_at(3, 0), None);
    assert_eq!(frame.rgb_at(0, 2), None);
    assert_eq!(frame.rgb_at(u32::MAX, u32::MAX), None);
}

#[test]
fn a_snapshot_holds_the_same_pixels() {
    let frame = Frame::from_raw(2, 2, ramp(16)).expect("fits");
    let copy = frame.snapshot();
    assert_eq!(copy.width(), 2);
    assert_eq!(copy.height(), 2);
    for y in 0..2 {
        for x in 0..2 {
            assert_eq!(copy.rgb_at(x, y), frame.rgb_at(x, y));
        }
    }
}
