use webgl_paint::pixels::byte_swap;
use webgl_paint::pixels::flip_vertical;
use webgl_paint::pixels::prepare_frame;

#[test]
fn byte_swap_trades_bytes_zero_and_two_of_each_pixel() {
    let mut data = vec![1u8, 2, 3, 4, 5, 6, 7, 8];
    byte_swap(&mut data);
    assert_eq!(data, vec![3, 2, 1, 4, 7, 6, 5, 8]);
}

#[test]
fn byte_swap_of_empty_buffer_is_empty() {
    let mut data: Vec<u8> = Vec::new();
    byte_swap(&mut data);
    assert!(data.is_empty());
}

#[test]
fn flip_vertical_reverses_row_order_and_keeps_rows_verbatim() {
    // One pixel per row, three rows, bottom-to-top: a, b, c.
    let a = [10u8, 11, 12, 13];
    let b = [20u8, 21, 22, 23];
    let c = [30u8, 31, 32, 33];
    let mut src: Vec<u8> = Vec::new();
    src.extend_from_slice(&a);
    src.extend_from_slice(&b);
    src.extend_from_slice(&c);
    let out = flip_vertical(&src, 1, 3);
    let mut expected: Vec<u8> = Vec::new();
    expected.extend_from_slice(&c);
    expected.extend_from_slice(&b);
    expected.extend_from_slice(&a);
    assert_eq!(out, expected);
}

#[test]
fn published_first_row_is_source_last_row_with_r_and_b_swapped() {
    // 2x2 source, filled bottom-up with a distinct per-row marker in G and
    // distinguishable R and B values.
    let width = 2usize;
    let height = 2usize;
    let mut src: Vec<u8> = Vec::new();
    // Bottom row (GL row 0): marker G = 100.
    src.extend_from_slice(&[1, 100, 9, 200, 2, 100, 8, 201]);
    // Top row (GL row 1): marker G = 110.
    src.extend_from_slice(&[3, 110, 7, 202, 4, 110, 6, 203]);
    let out = prepare_frame(&src, width, height);
    assert_eq!(out.len(), src.len());
    // First published row: the source's last (top) row, R and B swapped,
    // G and A unchanged.
    assert_eq!(&out[0..8], &[7, 110, 3, 202, 6, 110, 4, 203]);
    // Second published row: the source's bottom row, likewise.
    assert_eq!(&out[8..16], &[9, 100, 1, 200, 8, 100, 2, 201]);
}

#[test]
fn prepare_frame_of_empty_buffer_is_empty() {
    let src: Vec<u8> = Vec::new();
    let out = prepare_frame(&src, 0, 0);
    assert!(out.is_empty());
}

#[test]
fn prepare_frame_single_pixel_swaps_channels_only() {
    let src = vec![40u8, 41, 42, 43];
    let out = prepare_frame(&src, 1, 1);
    assert_eq!(out, vec![42, 41, 40, 43]);
}
