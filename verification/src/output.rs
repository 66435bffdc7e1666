use vstd::prelude::*;
use vstd::string::StrSliceExecFns;
use crate::error::ThumbnailerError;
use crate::video_frame::VideoFrame;

verus! {

/// The image formats a thumbnail can be encoded to.
#[derive(Debug, Clone, Copy, PartialEq, Eq, Structural)]
pub enum OutputFormat {
    Webp,
    Png,
}

/// The lower-case form of an ASCII capital; any other character as it is.
pub open spec fn ascii_lower(c: char) -> char {
    if 'A' <= c <= 'Z' {
        ((c as int) + 32) as char
    } else {
        c
    }
}

/// Two strings are alike but for the case of their ASCII letters.
pub open spec fn eq_ignore_ascii_case(a: Seq<char>, b: Seq<char>) -> bool {
    a.len() == b.len() && forall|i: int| 0 <= i < a.len() ==> ascii_lower(#[trigger] a[i]) == ascii_lower(b[i])
}

/// The format an extension names, if it names one.
pub open spec fn format_named(extension: Seq<char>) -> Option<OutputFormat> {
    if eq_ignore_ascii_case(extension, "webp"@) {
        Some(OutputFormat::Webp)
    } else if eq_ignore_ascii_case(extension, "png"@) {
        Some(OutputFormat::Png)
    } else {
        None
    }
}

/// Gives the lower-case form of an ASCII capital.
fn to_ascii_lower(c: char) -> (lower: char)
    ensures
        lower == ascii_lower(c),
{
    if 'A' <= c && c <= 'Z' {
        ((c as u8) + 32) as char
    } else {
        c
    }
}

/// Compares two strings without regard to the case of their ASCII letters.
pub fn same_ignoring_ascii_case(a: &str, b: &str) -> (same: bool)
    ensures
        same == eq_ignore_ascii_case(a@, b@),
{
    let n = a.unicode_len();
    if b.unicode_len() != n {
        return false;
    }
    let mut i: usize = 0;
    while i < n
        invariant
            i <= n,
            n == a@.len(),
            n == b@.len(),
            forall|j: int| 0 <= j < i ==> ascii_lower(#[trigger] a@[j]) == ascii_lower(b@[j]),
        decreases n - i,
    {
        if to_ascii_lower(a.get_char(i)) != to_ascii_lower(b.get_char(i)) {
            return false;
        }
        i = i + 1;
    }
    true
}

impl OutputFormat {
    /// Infers the format from the extension of an output path, without
    /// regard to case. `None` stands for a path without extension, which is
    /// reported under the name `<empty>`.
    pub fn from_extension(extension: Option<&str>) -> (format: Result<OutputFormat, ThumbnailerError>)
        ensures
            match extension {
                Some(name) => match format_named(name@) {
                    Some(known) => format == Ok::<OutputFormat, ThumbnailerError>(known),
                    None => format matches Err(ThumbnailerError::UnsupportedExtension(reported))
                        && reported@ == name@,
                },
                None => format matches Err(ThumbnailerError::UnsupportedExtension(reported))
                    && reported@ == "<empty>"@,
            },
    {
        match extension {
            Some(name) => {
                if same_ignoring_ascii_case(name, "webp") {
                    Ok(OutputFormat::Webp)
                } else if same_ignoring_ascii_case(name, "png") {
                    Ok(OutputFormat::Png)
                } else {
                    Err(ThumbnailerError::UnsupportedExtension(name.to_owned()))
                }
            },
            None => Err(ThumbnailerError::UnsupportedExtension("<empty>".to_owned())),
        }
    }
}

/// An encoded thumbnail together with the geometry of the frame it was made
/// from. The source dimensions are those of the picture before scaling.
#[derive(Debug)]
pub struct OutputContainer {
    pub width: u32,
    pub height: u32,
    pub source_width: u32,
    pub source_height: u32,
    pub bytes: Vec<u8>,
}

impl OutputContainer {
    /// Wraps encoded bytes with the dimensions of the frame they encode.
    pub fn from(video_frame: &VideoFrame, bytes: Vec<u8>) -> (container: Self)
        ensures
            container.width == video_frame.width,
            container.height == video_frame.height,
            container.source_width == video_frame.source_width,
            container.source_height == video_frame.source_height,
            container.bytes == bytes,
    {
        Self {
            width: video_frame.width,
            height: video_frame.height,
            source_width: video_frame.source_width,
            source_height: video_frame.source_height,
            bytes,
        }
    }
}

} // verus!
