//! Video thumbnail pipeline: which frame to take, how large to make it, how to
//! decorate it and how to hand it to an image encoder.
//!
//! The container demuxer and the pixel resampler live outside this crate. The
//! crate decides what they are asked to do and checks what they hand back.

pub mod binary32;
pub mod encoder;
pub mod error;
pub mod film_strip;
pub mod output;
pub mod pipeline;
pub mod scaling;
pub mod seek;
pub mod thumbnailer;
pub mod video_frame;

pub use binary32::Binary32;
pub use error::ThumbnailerError;
pub use film_strip::film_strip_filter;
pub use output::{OutputContainer, OutputFormat};
pub use scaling::ThumbnailSize;
pub use thumbnailer::{Thumbnailer, ThumbnailerBuilder};
pub use video_frame::VideoFrame;
