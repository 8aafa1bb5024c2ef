use optical_detector::nv12::{convertible, nv12_to_rgb};

#[test]
fn neutral_chroma_gives_grey() {
    let nv12 = vec![0u8, 64, 128, 255, 128, 128];
    assert_eq!(
        nv12_to_rgb(&nv12, 2, 2),
        vec![0, 0, 0, 64, 64, 64, 128, 128, 128, 255, 255, 255]
    );
}

#[test]
fn chroma_shifts_and_saturates() {
    let nv12 = vec![10u8, 20, 30, 250, 90, 240];
    assert_eq!(
        nv12_to_rgb(&nv12, 2, 2),
        vec![167, 0, 0, 177, 0, 0, 187, 0, 0, 255, 184, 183]
    );
}

#[test]
fn negative_chroma_terms_round_toward_zero() {
    let nv12 = vec![100u8, 100, 100, 100, 127, 127];
    let rgb = nv12_to_rgb(&nv12, 2, 2);
    assert_eq!(&rgb[..3], &[99, 100, 99]);
}

#[test]
fn extreme_chroma() {
    // u = v = 0: red -179, green +44 +91, blue -226.
    let rgb = nv12_to_rgb(&[200u8, 200, 200, 200, 0, 0], 2, 2);
    assert_eq!(&rgb[..3], &[21, 255, 0]);
    // u = v = 255: red +178, green -43 -90, blue +225.
    let rgb = nv12_to_rgb(&[200u8, 200, 200, 200, 255, 255], 2, 2);
    assert_eq!(&rgb[..3], &[255, 67, 255]);
}

#[test]
fn each_block_has_its_own_chroma() {
    // Four columns, four rows, four blocks, luma 100 throughout.
    let mut nv12 = vec![100u8; 16];
    nv12.extend_from_slice(&[128, 128, 128, 138, 138, 128, 118, 118]);
    let rgb = nv12_to_rgb(&nv12, 4, 4);
    assert_eq!(rgb.len(), 48);
    let pixel = |row: usize, col: usize| {
        let i = (row * 4 + col) * 3;
        (rgb[i], rgb[i + 1], rgb[i + 2])
    };
    for row in 0..2 {
        for col in 0..2 {
            assert_eq!(pixel(row, col), (100, 100, 100));
            assert_eq!(pixel(row, col + 2), (114, 93, 100));
            assert_eq!(pixel(row + 2, col), (100, 97, 117));
            assert_eq!(pixel(row + 2, col + 2), (86, 110, 83));
        }
    }
}

#[test]
fn bytes_after_the_frame_are_ignored() {
    let nv12 = vec![10u8, 20, 30, 250, 90, 240];
    let mut longer = nv12.clone();
    longer.extend_from_slice(&[1, 2, 3]);
    assert_eq!(nv12_to_rgb(&nv12, 2, 2), nv12_to_rgb(&longer, 2, 2));
}

#[test]
fn odd_width_reads_one_byte_more() {
    assert!(!convertible(6, 3, 1));
    assert!(convertible(7, 3, 1));
    let nv12 = vec![50u8, 60, 70, 128, 128, 128, 128];
    assert_eq!(nv12_to_rgb(&nv12, 3, 1), vec![50, 50, 50, 60, 60, 60, 70, 70, 70]);
}

#[test]
fn odd_height_has_a_half_used_chroma_row() {
    assert!(!convertible(9, 2, 3));
    assert!(convertible(10, 2, 3));
}

#[test]
fn empty_frames_convert_to_nothing() {
    assert!(convertible(0, 0, 5));
    assert!(convertible(0, 5, 0));
    assert!(convertible(0, 0, usize::MAX));
    assert_eq!(nv12_to_rgb(&[], 0, 5), Vec::<u8>::new());
    assert_eq!(nv12_to_rgb(&[], 5, 0), Vec::<u8>::new());
}

#[test]
fn sizes_that_overflow_are_not_convertible() {
    assert!(!convertible(usize::MAX, usize::MAX, 2));
    assert!(!convertible(usize::MAX, usize::MAX / 4, 1));
}
