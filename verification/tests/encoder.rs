use thumbnailer::binary32::Binary32;
use thumbnailer::encoder::{Encoding, PNG_MAX_WIDTH, WEBP_MAX_EDGE};
use thumbnailer::{OutputFormat, Thumbnailer, ThumbnailerBuilder, ThumbnailerError, VideoFrame};

const SIGNATURE: [u8; 8] = [137, 80, 78, 71, 13, 10, 26, 10];

fn single(value: f32) -> Binary32 {
    Binary32::from_bits(value.to_bits())
}

fn thumbnailer() -> Thumbnailer {
    ThumbnailerBuilder::new().build()
}

fn frame(width: u32, height: u32) -> VideoFrame {
    let data = (0..width * height * 3).map(|i| (i * 7 % 256) as u8).collect();
    VideoFrame { width, height, source_width: 10 * width, source_height: 10 * height, data }
}

fn decode(stream: &[u8]) -> (png::OutputInfo, Vec<u8>) {
    let mut reader = png::Decoder::new(stream).read_info().unwrap();
    let mut pixels = vec![0; reader.output_buffer_size()];
    let info = reader.next_frame(&mut pixels).unwrap();
    pixels.truncate(info.buffer_size());
    (info, pixels)
}

#[test]
fn png_bytes_decode_to_the_frame() {
    let source = frame(16, 9);
    let container = thumbnailer().process_to_png_bytes(frame(16, 9)).unwrap();
    assert_eq!(container.bytes[..8], SIGNATURE);
    assert_ne!(container.bytes, source.data);
    let (info, pixels) = decode(&container.bytes);
    assert_eq!(info.width, 16);
    assert_eq!(info.height, 9);
    assert_eq!(info.color_type, png::ColorType::Rgb);
    assert_eq!(info.bit_depth, png::BitDepth::Eight);
    assert_eq!(pixels, source.data);
}

#[test]
fn png_container_carries_the_dimensions_of_the_frame() {
    let container = thumbnailer().process_to_png_bytes(frame(16, 9)).unwrap();
    assert_eq!((container.width, container.height), (16, 9));
    assert_eq!((container.source_width, container.source_height), (160, 90));
}

#[test]
fn png_of_a_single_pixel() {
    let source = VideoFrame { width: 1, height: 1, source_width: 1, source_height: 1, data: vec![10, 20, 30] };
    let container = thumbnailer().process_to_png_bytes(source).unwrap();
    let (info, pixels) = decode(&container.bytes);
    assert_eq!((info.width, info.height), (1, 1));
    assert_eq!(pixels, vec![10, 20, 30]);
}

#[test]
fn png_encoding_is_repeatable() {
    let first = thumbnailer().process_to_png_bytes(frame(33, 21)).unwrap();
    let second = thumbnailer().process_to_png_bytes(frame(33, 21)).unwrap();
    assert_eq!(first.bytes, second.bytes);
}

#[test]
fn png_ignores_the_quality() {
    let low = ThumbnailerBuilder::new().quality(single(1.0)).unwrap().build();
    let high = ThumbnailerBuilder::new().quality(single(100.0)).unwrap().build();
    let a = low.process_to_png_bytes(frame(20, 20)).unwrap();
    let b = high.process_to_png_bytes(frame(20, 20)).unwrap();
    assert_eq!(a.bytes, b.bytes);
}

#[test]
fn a_frame_without_pixels_is_refused() {
    let result = thumbnailer().process_to_png_bytes(VideoFrame::default());
    assert!(matches!(result, Err(ThumbnailerError::EncodeFailed)), "{result:?}");
    let flat = VideoFrame { width: 5, height: 0, source_width: 5, source_height: 5, data: Vec::new() };
    let result = thumbnailer().process_to_png_bytes(flat);
    assert!(matches!(result, Err(ThumbnailerError::EncodeFailed)), "{result:?}");
    let thin = VideoFrame { width: 0, height: 5, source_width: 5, source_height: 5, data: Vec::new() };
    let result = thumbnailer().process_to_png_bytes(thin);
    assert!(matches!(result, Err(ThumbnailerError::EncodeFailed)), "{result:?}");
}

#[test]
fn a_frame_whose_buffer_does_not_fit_is_refused() {
    let short = VideoFrame { width: 4, height: 4, source_width: 4, source_height: 4, data: vec![0; 47] };
    let result = thumbnailer().process_to_png_bytes(short);
    assert!(matches!(result, Err(ThumbnailerError::EncodeFailed)), "{result:?}");
    let long = VideoFrame { width: 4, height: 4, source_width: 4, source_height: 4, data: vec![0; 49] };
    let result = thumbnailer().process_to_png_bytes(long);
    assert!(matches!(result, Err(ThumbnailerError::EncodeFailed)), "{result:?}");
}

#[test]
fn encode_as_png_finishes_at_once() {
    let direct = thumbnailer().process_to_png_bytes(frame(12, 12)).unwrap();
    match thumbnailer().encode(frame(12, 12), OutputFormat::Png) {
        Ok(Encoding::Finished(container)) => {
            assert_eq!(container.bytes, direct.bytes);
            assert_eq!((container.width, container.height), (12, 12));
            assert_eq!((container.source_width, container.source_height), (120, 120));
        },
        other => panic!("{other:?}"),
    }
}

#[test]
fn encode_as_png_passes_the_refusal_on() {
    let result = thumbnailer().encode(VideoFrame::default(), OutputFormat::Png);
    assert!(matches!(result, Err(ThumbnailerError::EncodeFailed)), "{result:?}");
}

#[test]
fn encode_as_webp_hands_the_frame_back_with_the_quality() {
    let source = frame(12, 8);
    let thumbnailer = ThumbnailerBuilder::new().quality(single(42.5)).unwrap().build();
    match thumbnailer.encode(frame(12, 8), OutputFormat::Webp) {
        Ok(Encoding::WebpPending { video_frame, quality }) => {
            assert_eq!(quality, single(42.5));
            assert_eq!(f32::from_bits(quality.to_bits()), 42.5);
            assert_eq!(video_frame.data, source.data);
            assert_eq!((video_frame.width, video_frame.height), (12, 8));
            assert_eq!((video_frame.source_width, video_frame.source_height), (120, 80));
        },
        other => panic!("{other:?}"),
    }
}

#[test]
fn encode_as_webp_refuses_what_the_encoder_could_not_read() {
    let refused = |video_frame: VideoFrame| {
        let result = thumbnailer().encode(video_frame, OutputFormat::Webp);
        assert!(matches!(result, Err(ThumbnailerError::EncodeFailed)), "{result:?}");
    };
    refused(VideoFrame::default());
    refused(VideoFrame { width: 5, height: 0, source_width: 5, source_height: 5, data: Vec::new() });
    refused(VideoFrame { width: 0, height: 5, source_width: 5, source_height: 5, data: Vec::new() });
    refused(VideoFrame { width: 4, height: 4, source_width: 4, source_height: 4, data: vec![0; 47] });
    refused(VideoFrame { width: 4, height: 4, source_width: 4, source_height: 4, data: vec![0; 49] });
    refused(frame(16384, 1));
    refused(frame(1, 16384));
}

#[test]
fn encode_as_webp_accepts_the_longest_edges() {
    assert_eq!(WEBP_MAX_EDGE, 16383);
    for (width, height) in [(16383u32, 1u32), (1, 16383), (1, 1)] {
        let result = thumbnailer().encode(frame(width, height), OutputFormat::Webp);
        assert!(matches!(result, Ok(Encoding::WebpPending { .. })), "{width}x{height}");
    }
}

#[test]
fn a_pending_frame_goes_through_the_webp_encoder() {
    match thumbnailer().encode(frame(16, 9), OutputFormat::Webp) {
        Ok(Encoding::WebpPending { video_frame, quality }) => {
            let encoder = webp::Encoder::from_rgb(&video_frame.data, video_frame.width, video_frame.height);
            let memory = encoder.encode_simple(false, f32::from_bits(quality.to_bits())).unwrap();
            let bytes: &[u8] = &memory;
            assert_eq!(bytes[..4], *b"RIFF");
            assert_eq!(bytes[8..12], *b"WEBP");
            let decoded = webp::Decoder::new(bytes).decode().unwrap();
            assert_eq!((decoded.width(), decoded.height()), (16, 9));
        },
        other => panic!("{other:?}"),
    }
}

#[test]
fn the_widest_png_row_is_counted_by_32_bits() {
    assert!(3 * PNG_MAX_WIDTH as u64 + 1 <= u32::MAX as u64);
    assert!(3 * (PNG_MAX_WIDTH as u64 + 1) + 1 > u32::MAX as u64);
}

#[test]
fn png_of_a_single_colour_row() {
    // After the first pixel such a row is one run of equal bytes to the compressor.
    let source = VideoFrame { width: 5000, height: 2, source_width: 5000, source_height: 2, data: vec![9; 30_000] };
    let container = thumbnailer().process_to_png_bytes(source).unwrap();
    let (info, pixels) = decode(&container.bytes);
    assert_eq!((info.width, info.height), (5000, 2));
    assert_eq!(pixels, vec![9; 30_000]);
}

#[test]
fn encode_as_webp_uses_the_default_quality_when_none_was_set() {
    match thumbnailer().encode(frame(2, 2), OutputFormat::Webp) {
        Ok(Encoding::WebpPending { quality, .. }) => assert_eq!(f32::from_bits(quality.to_bits()), 80.0),
        other => panic!("{other:?}"),
    }
}
