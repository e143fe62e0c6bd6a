use cursor_analyzer::frame::FrameBuffer;

#[test]
fn exact_length_succeeds_and_preserves_bytes() {
    let data: Vec<u8> = (0..48).map(|i| (i * 5) as u8).collect();
    let expected = data.clone();
    let fb = FrameBuffer::from_raw(4, 3, data).unwrap();
    assert_eq!(fb.width(), 4);
    assert_eq!(fb.height(), 3);
    assert_eq!(fb.len(), 48);
    assert_eq!(fb.data(), &expected);
    assert_eq!(fb.into_raw(), expected);
}

#[test]
fn short_buffer_is_refused() {
    let data = vec![0u8; 47];
    assert!(FrameBuffer::from_raw(4, 3, data).is_none());
}

#[test]
fn long_buffer_is_refused() {
    let data = vec![0u8; 49];
    assert!(FrameBuffer::from_raw(4, 3, data).is_none());
}

#[test]
fn empty_buffer_needs_zero_area() {
    assert!(FrameBuffer::from_raw(4, 3, Vec::new()).is_none());
    assert!(FrameBuffer::from_raw(0, 3, Vec::new()).is_some());
}
