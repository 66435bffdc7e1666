use vstd::prelude::*;
use crate::binary32::Binary32;
use crate::error::ThumbnailerError;
use crate::output::{OutputContainer, OutputFormat};
use crate::thumbnailer::Thumbnailer;
use crate::video_frame::{VideoFrame, rgb_len};

verus! {

/// The widest picture handed to the PNG encoder. A row of it, three bytes a
/// pixel and one for the filter, is the longest that a 32-bit counter counts.
pub const PNG_MAX_WIDTH: u32 = 1_431_655_764;

/// The longest edge a WebP picture can have.
pub const WEBP_MAX_EDGE: u32 = 16383;

/// The error type of the `png` crate's encoder. Nothing is known of a value
/// but that it is one.
#[verifier::external_type_specification]
#[verifier::external_body]
pub struct ExEncodingError(png::EncodingError);

/// The PNG stream that the `png` crate writes for a packed RGB picture of
/// eight bits a channel, with its default compression and filter.
pub uninterp spec fn rgb8_png_stream(pixels: Seq<u8>, width: u32, height: u32) -> Seq<u8>;

/// The eight bytes every PNG stream begins with.
pub open spec fn png_signature() -> Seq<u8> {
    seq![137u8, 80u8, 78u8, 71u8, 13u8, 10u8, 26u8, 10u8]
}

/// The stream begins with the PNG signature.
pub open spec fn begins_as_png(stream: Seq<u8>) -> bool {
    stream.len() >= 8 && stream.subrange(0, 8) == png_signature()
}

/// A row of the picture, with its filter byte, is counted by 32 bits.
pub open spec fn png_row_fits(width: u32) -> bool {
    3 * width + 1 <= u32::MAX
}

/// Encodes a packed RGB picture of eight bits a channel with the `png`
/// crate: `Encoder::new` on an empty vector, `set_color(Rgb)`,
/// `set_depth(Eight)`, `write_header` and `Writer::write_image_data`, the
/// writer closing the stream as it is dropped.
///
/// Trusted, for a buffer that holds `width * height` pixels in rows short
/// enough for the compressor, which counts a run of equal bytes within a row
/// in 32 bits: the crate refuses a width or a height of zero and nothing
/// else, writing to a vector cannot fail, the stream begins with the PNG
/// signature, and it depends on the pixels and the dimensions alone.
#[verifier::external_body]
fn encode_rgb8_png(pixels: &[u8], width: u32, height: u32) -> (encoded: Result<Vec<u8>, png::EncodingError>)
    requires
        pixels@.len() == rgb_len(width, height),
        png_row_fits(width),
    ensures
        (encoded is Ok) == (width != 0 && height != 0),
        encoded is Ok ==> encoded->Ok_0@ == rgb8_png_stream(pixels@, width, height),
        encoded is Ok ==> begins_as_png(encoded->Ok_0@),
{
    let mut stream: Vec<u8> = Vec::new();
    let mut encoder = png::Encoder::new(&mut stream, width, height);
    encoder.set_color(png::ColorType::Rgb);
    encoder.set_depth(png::BitDepth::Eight);
    encoder.write_header()?.write_image_data(pixels)?;
    Ok(stream)
}

/// What encoding a frame leads to: the container, or the request to have the
/// frame encoded as WebP at the given quality.
#[derive(Debug)]
pub enum Encoding {
    Finished(OutputContainer),
    WebpPending { video_frame: VideoFrame, quality: Binary32 },
}

/// The container `container` wraps `bytes` with the dimensions of `frame`.
pub open spec fn wraps(container: OutputContainer, frame: VideoFrame, bytes: Seq<u8>) -> bool {
    &&& container.width == frame.width
    &&& container.height == frame.height
    &&& container.source_width == frame.source_width
    &&& container.source_height == frame.source_height
    &&& container.bytes@ == bytes
}

/// The frame can be encoded as PNG: it holds at least one pixel and its rows
/// are not too long for the encoder.
pub open spec fn png_encodable(frame: VideoFrame) -> bool {
    frame.populated() && png_row_fits(frame.width)
}

/// The frame can be encoded as WebP: it holds at least one pixel and neither
/// edge is longer than the format allows.
pub open spec fn webp_encodable(frame: VideoFrame) -> bool {
    frame.populated() && frame.width <= WEBP_MAX_EDGE && frame.height <= WEBP_MAX_EDGE
}

/// The result of encoding `frame` as PNG: for a frame that can be encoded,
/// the container with the stream, which begins with the PNG signature; a
/// failure for any other.
pub open spec fn png_result(frame: VideoFrame, result: Result<OutputContainer, ThumbnailerError>) -> bool {
    if png_encodable(frame) {
        &&& result matches Ok(container)
        &&& wraps(container, frame, rgb8_png_stream(frame.data@, frame.width, frame.height))
        &&& begins_as_png(container.bytes@)
    } else {
        result == Err::<OutputContainer, ThumbnailerError>(ThumbnailerError::EncodeFailed)
    }
}

/// The result of sending `frame` to the encoder of `format` with the given
/// quality. PNG is encoded on the spot. A frame that can be encoded as WebP
/// is handed back untouched with the quality; any other is a failure.
pub open spec fn encode_result(
    frame: VideoFrame,
    format: OutputFormat,
    quality: Binary32,
    result: Result<Encoding, ThumbnailerError>,
) -> bool {
    match format {
        OutputFormat::Png => match result {
            Ok(Encoding::Finished(container)) => png_result(frame, Ok(container)),
            Ok(Encoding::WebpPending { .. }) => false,
            Err(error) => png_result(frame, Err(error)),
        },
        OutputFormat::Webp => if webp_encodable(frame) {
            result matches Ok(Encoding::WebpPending { video_frame, quality: chosen }) && video_frame == frame
                && chosen == quality
        } else {
            result == Err::<Encoding, ThumbnailerError>(ThumbnailerError::EncodeFailed)
        },
    }
}

impl Thumbnailer {
    /// Encodes a frame as PNG: 8 bits deep, RGB, lossless. The quality
    /// setting plays no part.
    pub fn process_to_png_bytes(&self, video_frame: VideoFrame) -> (result: Result<OutputContainer, ThumbnailerError>)
        ensures
            png_result(video_frame, result),
    {
        if !video_frame.is_well_formed() || video_frame.width > PNG_MAX_WIDTH {
            return Err(ThumbnailerError::EncodeFailed);
        }
        match encode_rgb8_png(video_frame.data.as_slice(), video_frame.width, video_frame.height) {
            Ok(stream) => Ok(OutputContainer::from(&video_frame, stream)),
            Err(_) => Err(ThumbnailerError::EncodeFailed),
        }
    }

    /// Sends a finished frame to the encoder of the requested format. PNG is
    /// encoded here. WebP is lossy and takes the quality from the settings;
    /// its encoder is run by the caller, who wraps the bytes with
    /// `OutputContainer::from`. The caller gets no frame that the WebP
    /// encoder could not read: none without pixels, none whose buffer does
    /// not fit its dimensions, none with an edge beyond the format's limit.
    pub fn encode(&self, video_frame: VideoFrame, format: OutputFormat) -> (result: Result<Encoding, ThumbnailerError>)
        ensures
            encode_result(video_frame, format, self@.quality, result),
    {
        match format {
            OutputFormat::Png => match self.process_to_png_bytes(video_frame) {
                Ok(container) => Ok(Encoding::Finished(container)),
                Err(error) => Err(error),
            },
            OutputFormat::Webp => {
                if !video_frame.is_well_formed() || video_frame.width == 0 || video_frame.height == 0
                    || video_frame.width > WEBP_MAX_EDGE || video_frame.height > WEBP_MAX_EDGE {
                    return Err(ThumbnailerError::EncodeFailed);
                }
                let settings = self.settings();
                Ok(Encoding::WebpPending { video_frame, quality: settings.quality })
            },
        }
    }
}

/// Encoding the same frame twice gives the same bytes.
pub proof fn lemma_png_repeatable(
    frame: VideoFrame,
    first: Result<OutputContainer, ThumbnailerError>,
    second: Result<OutputContainer, ThumbnailerError>,
)
    requires
        png_result(frame, first),
        png_result(frame, second),
    ensures
        first is Ok <==> second is Ok,
        first matches Ok(a) ==> second matches Ok(b) && a.bytes@ == b.bytes@ && a.width == b.width && a.height
            == b.height && a.source_width == b.source_width && a.source_height == b.source_height,
        first is Err ==> first == second,
{
}

} // verus!
