use thumbnailer::film_strip::{strip_width_for, BAND_SHADE, HOLE_SHADE};
use thumbnailer::{film_strip_filter, VideoFrame};

fn gradient(width: u32, height: u32) -> VideoFrame {
    let mut data = Vec::new();
    for y in 0..height {
        for x in 0..width {
            data.push((x % 200) as u8 + 1);
            data.push((y % 200) as u8 + 1);
            data.push(((x + y) % 200) as u8 + 1);
        }
    }
    VideoFrame { width, height, source_width: 4 * width, source_height: 4 * height, data }
}

fn pixel(frame: &VideoFrame, x: u32, y: u32) -> [u8; 3] {
    let at = ((y * frame.width + x) * 3) as usize;
    [frame.data[at], frame.data[at + 1], frame.data[at + 2]]
}

fn shade(strip: u32, column: u32, row: u32) -> u8 {
    let margin = strip / 4;
    let in_columns = margin <= column && column < strip - margin;
    let in_rows = margin <= row % strip && row % strip < strip - margin;
    if in_columns && in_rows {
        255
    } else {
        0
    }
}

#[test]
fn shades_are_black_and_white() {
    assert_eq!(BAND_SHADE, 0);
    assert_eq!(HOLE_SHADE, 255);
}

#[test]
fn strip_width_follows_the_frame_width() {
    let expected = [
        (0u32, 0u32),
        (1, 0),
        (8, 0),
        (9, 4),
        (96, 4),
        (97, 8),
        (128, 8),
        (192, 8),
        (193, 16),
        (384, 16),
        (385, 32),
        (768, 32),
        (769, 64),
        (4096, 64),
        (u32::MAX, 64),
    ];
    for (width, strip) in expected {
        assert_eq!(strip_width_for(width), strip, "width {width}");
    }
}

#[test]
fn narrow_frames_are_left_alone() {
    for width in [0u32, 1, 2, 8] {
        let mut frame = gradient(width, 5);
        let before = frame.data.clone();
        film_strip_filter(&mut frame);
        assert_eq!(frame.data, before);
    }
}

#[test]
fn an_empty_frame_stays_empty() {
    let mut frame = VideoFrame::default();
    film_strip_filter(&mut frame);
    assert!(frame.data.is_empty());
    assert_eq!((frame.width, frame.height), (0, 0));
}

#[test]
fn dimensions_are_kept() {
    let mut frame = gradient(40, 30);
    film_strip_filter(&mut frame);
    assert_eq!(frame.width, 40);
    assert_eq!(frame.height, 30);
    assert_eq!(frame.source_width, 160);
    assert_eq!(frame.source_height, 120);
    assert_eq!(frame.data.len(), 40 * 30 * 3);
    assert!(frame.is_well_formed());
}

#[test]
fn the_smallest_strip_is_drawn_pixel_by_pixel() {
    let mut frame = gradient(10, 5);
    let before = gradient(10, 5);
    film_strip_filter(&mut frame);
    let o = [0u8, 0, 0];
    let w = [255u8, 255, 255];
    for y in 0..5 {
        let hole = y % 4 == 1 || y % 4 == 2;
        let band = if hole { [o, w, w, o] } else { [o, o, o, o] };
        for c in 0..4 {
            assert_eq!(pixel(&frame, c, y), band[c as usize], "left {c},{y}");
            assert_eq!(pixel(&frame, 9 - c, y), band[c as usize], "right {c},{y}");
        }
        for x in 4..6 {
            assert_eq!(pixel(&frame, x, y), pixel(&before, x, y), "middle {x},{y}");
        }
    }
}

#[test]
fn every_pixel_is_band_hole_or_untouched() {
    for (width, height) in [(9u32, 9u32), (64, 17), (97, 40), (130, 3), (200, 33), (400, 70), (800, 130)] {
        let strip = strip_width_for(width);
        let before = gradient(width, height);
        let mut frame = gradient(width, height);
        film_strip_filter(&mut frame);
        for y in 0..height {
            for x in 0..width {
                let expected = if x < strip {
                    [shade(strip, x, y); 3]
                } else if x >= width - strip {
                    [shade(strip, width - 1 - x, y); 3]
                } else {
                    pixel(&before, x, y)
                };
                assert_eq!(pixel(&frame, x, y), expected, "{width}x{height} at {x},{y}");
            }
        }
    }
}

#[test]
fn the_right_band_mirrors_the_left() {
    let mut frame = gradient(100, 20);
    film_strip_filter(&mut frame);
    for y in 0..20 {
        for c in 0..8 {
            assert_eq!(pixel(&frame, c, y), pixel(&frame, 99 - c, y));
        }
    }
}

#[test]
fn filtering_twice_changes_nothing_more() {
    let mut once = gradient(50, 12);
    film_strip_filter(&mut once);
    let mut twice = gradient(50, 12);
    film_strip_filter(&mut twice);
    film_strip_filter(&mut twice);
    assert_eq!(once.data, twice.data);
}

#[test]
fn the_filter_changes_a_frame_wide_enough() {
    let before = gradient(32, 8);
    let mut frame = gradient(32, 8);
    film_strip_filter(&mut frame);
    assert_ne!(frame.data, before.data);
}
