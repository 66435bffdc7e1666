use thumbnailer::VideoFrame;

#[test]
fn empty_frame_has_no_pixels() {
    let frame = VideoFrame::default();
    assert_eq!(frame.width, 0);
    assert_eq!(frame.height, 0);
    assert_eq!(frame.source_width, 0);
    assert_eq!(frame.source_height, 0);
    assert!(frame.data.is_empty());
    assert!(frame.is_well_formed());
}

#[test]
fn well_formed_means_three_bytes_a_pixel() {
    let frame = |width: u32, height: u32, len: usize| VideoFrame {
        width,
        height,
        source_width: width,
        source_height: height,
        data: vec![0; len],
    };
    assert!(frame(4, 3, 36).is_well_formed());
    assert!(!frame(4, 3, 35).is_well_formed());
    assert!(!frame(4, 3, 37).is_well_formed());
    assert!(!frame(4, 3, 12).is_well_formed());
    assert!(frame(0, 3, 0).is_well_formed());
    assert!(frame(4, 0, 0).is_well_formed());
    assert!(!frame(0, 0, 1).is_well_formed());
    assert!(!frame(u32::MAX, u32::MAX, 3).is_well_formed());
    assert!(!frame(u32::MAX, u32::MAX, 0).is_well_formed());
}
