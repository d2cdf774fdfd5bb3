use offsetscan::entropy::{byte_histogram, entropy_windows};

#[test]
fn windows_are_contiguous_with_inclusive_end_offsets_and_a_short_tail() {
    let w = entropy_windows(300, 256);
    assert_eq!(w.len(), 2);
    assert_eq!((w[0].index, w[0].start_offset, w[0].end_offset, w[0].length), (0, 0, 255, 256));
    assert_eq!((w[1].index, w[1].start_offset, w[1].end_offset, w[1].length), (1, 256, 299, 44));
}

#[test]
fn no_windows_for_an_empty_buffer_or_a_zero_window() {
    assert!(entropy_windows(0, 256).is_empty());
    assert!(entropy_windows(100, 0).is_empty());
}

#[test]
fn an_exact_multiple_has_no_short_window() {
    let w = entropy_windows(512, 256);
    assert_eq!(w.len(), 2);
    assert_eq!(w[1].end_offset, 511);
    assert_eq!(w[1].length, 256);
}

#[test]
fn histogram_counts_each_byte_value() {
    let data: Vec<u8> = (0..64u8).map(|i| i % 2).collect();
    let h = byte_histogram(&data);
    assert_eq!(h.len(), 256);
    assert_eq!(h[0], 32);
    assert_eq!(h[1], 32);
    assert_eq!(h.iter().sum::<u64>(), 64);
    let uniform: Vec<u8> = (0..=255u8).collect();
    assert!(byte_histogram(&uniform).iter().all(|&c| c == 1));
}
