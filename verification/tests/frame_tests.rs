use robot_detect::frame::{frame_from_rgba8, Pixel};

#[test]
fn pixels_take_four_bytes_each() {
    let raw = [1u8, 2, 3, 4, 5, 6, 7, 8, 9, 10, 11, 12, 13, 14, 15, 16];
    let frame = frame_from_rgba8(2, 2, &raw);
    assert_eq!(frame.width, 2);
    assert_eq!(frame.height, 2);
    assert_eq!(frame.pixels.len(), 4);
    assert_eq!(frame.pixels[0], Pixel { r: 1, g: 2, b: 3, a: 4 });
    assert_eq!(frame.pixels[3], Pixel { r: 13, g: 14, b: 15, a: 16 });
}

#[test]
fn a_wide_frame_keeps_row_order() {
    let raw: Vec<u8> = (0..24).collect();
    let frame = frame_from_rgba8(3, 2, &raw);
    assert_eq!(frame.pixels.len(), 6);
    assert_eq!(frame.pixels[4], Pixel { r: 16, g: 17, b: 18, a: 19 });
}

#[test]
fn an_empty_frame_has_no_pixels() {
    let frame = frame_from_rgba8(0, 7, &[]);
    assert_eq!(frame.width, 0);
    assert_eq!(frame.height, 7);
    assert!(frame.pixels.is_empty());
}
