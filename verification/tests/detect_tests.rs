use cursor_analyzer::detect::{find_position, MarkerPos};

/// A width-by-height frame of one uniform byte value.
fn uniform(width: usize, height: usize, value: u8) -> Vec<u8> {
    vec![value; width * height * 4]
}

/// Paints the pixel at (x, y) with the given channel value.
fn set_pixel(buf: &mut Vec<u8>, width: usize, x: usize, y: usize, value: u8) {
    let i = (y * width + x) * 4;
    buf[i] = value;
    buf[i + 1] = value;
    buf[i + 2] = value;
}

/// A black frame with a one-pixel-wide, fourteen-row bright column whose
/// top sits at (x, y).
fn frame_with_marker(width: usize, height: usize, x: usize, y: usize) -> Vec<u8> {
    let mut buf = uniform(width, height, 0);
    for row in 0..14 {
        set_pixel(&mut buf, width, x, y + row, 255);
    }
    buf
}

#[test]
fn scenario_column_at_ten() {
    let buf = frame_with_marker(32, 40, 10, 0);
    let pos = find_position(&buf, 32).unwrap();
    assert_eq!(pos, MarkerPos { x: 10, y: 0 });
}

#[test]
fn detector_is_idempotent() {
    let buf = frame_with_marker(32, 40, 10, 0);
    let first = find_position(&buf, 32);
    let second = find_position(&buf, 32);
    assert_eq!(first, second);
    let dark = uniform(32, 40, 0);
    assert_eq!(find_position(&dark, 32), find_position(&dark, 32));
}

#[test]
fn uniform_black_has_no_marker() {
    let buf = uniform(16, 40, 0);
    assert!(find_position(&buf, 16).is_none());
}

#[test]
fn uniform_bright_has_no_marker() {
    let buf = uniform(16, 40, 255);
    assert!(find_position(&buf, 16).is_none());
}

#[test]
fn short_buffer_has_no_marker() {
    // Exactly the twenty-row margin: the scan range is empty.
    let buf = frame_with_marker(16, 20, 5, 0);
    assert!(find_position(&buf, 16).is_none());
    let tiny = uniform(16, 10, 255);
    assert!(find_position(&tiny, 16).is_none());
}

#[test]
fn marker_below_the_top() {
    let buf = frame_with_marker(24, 48, 5, 2);
    let pos = find_position(&buf, 24).unwrap();
    assert_eq!(pos, MarkerPos { x: 5, y: 2 });
}

#[test]
fn column_at_left_edge_is_rejected() {
    // No dark border can sit left of column zero.
    let buf = frame_with_marker(24, 48, 0, 0);
    assert!(find_position(&buf, 24).is_none());
}

#[test]
fn short_column_is_rejected() {
    let mut buf = uniform(24, 48, 0);
    for row in 0..10 {
        set_pixel(&mut buf, 24, 7, row, 255);
    }
    assert!(find_position(&buf, 24).is_none());
}

#[test]
fn bright_right_neighbor_is_rejected() {
    // A two-pixel-wide column has no dark right neighbor at its left edge
    // and no dark left neighbor at its right edge.
    let mut buf = uniform(24, 48, 0);
    for row in 0..14 {
        set_pixel(&mut buf, 24, 7, row, 255);
        set_pixel(&mut buf, 24, 8, row, 255);
    }
    assert!(find_position(&buf, 24).is_none());
}

#[test]
fn first_marker_in_scan_order_wins() {
    let mut buf = uniform(32, 60, 0);
    for row in 0..14 {
        set_pixel(&mut buf, 32, 20, 3 + row, 255);
        set_pixel(&mut buf, 32, 4, 5 + row, 255);
    }
    // Row-major order reaches (20, 3) before (4, 5).
    let pos = find_position(&buf, 32).unwrap();
    assert_eq!(pos, MarkerPos { x: 20, y: 3 });
}
