use vstd::prelude::*;
use crate::binary32::{Binary32, lemma_order_of_encodings, ZERO_BITS, ONE_BITS, HUNDRED_BITS};
use crate::error::ThumbnailerError;
use crate::scaling::ThumbnailSize;

verus! {

/// Edge length of a thumbnail when none is asked for.
pub const DEFAULT_SIZE: u32 = 128;

/// Bit pattern of `0.1`, the seek fraction when none is asked for.
pub const DEFAULT_SEEK_PERCENTAGE_BITS: u32 = 0x3DCC_CCCD;

/// Bit pattern of `80.0`, the quality when none is asked for.
pub const DEFAULT_QUALITY_BITS: u32 = 0x42A0_0000;

/// What a builder has been told, as a plain record.
#[derive(Debug, Clone, Copy)]
pub struct Settings {
    pub maintain_aspect_ratio: bool,
    pub size: ThumbnailSize,
    pub seek_percentage: Binary32,
    pub quality: Binary32,
    pub prefer_embedded_metadata: bool,
    pub with_film_strip: bool,
}

impl Settings {
    /// The seek fraction lies in `[0, 1]` and the quality in `[0, 100]`.
    pub open spec fn in_range(self) -> bool {
        self.seek_percentage.is_fraction() && self.quality.is_percentage()
    }
}

/// The settings of a builder nobody has touched.
pub open spec fn default_settings() -> Settings {
    Settings {
        maintain_aspect_ratio: true,
        size: ThumbnailSize::Size(DEFAULT_SIZE),
        seek_percentage: Binary32 { bits: DEFAULT_SEEK_PERCENTAGE_BITS },
        quality: Binary32 { bits: DEFAULT_QUALITY_BITS },
        prefer_embedded_metadata: true,
        with_film_strip: true,
    }
}

/// The default settings are within range.
pub proof fn lemma_default_settings_in_range()
    ensures
        default_settings().in_range(),
{
    let zero = Binary32 { bits: ZERO_BITS };
    let seek = Binary32 { bits: DEFAULT_SEEK_PERCENTAGE_BITS };
    let quality = Binary32 { bits: DEFAULT_QUALITY_BITS };
    assert(seek.biased_exponent() == 123);
    assert(quality.biased_exponent() == 133);
    lemma_order_of_encodings(zero, seek);
    lemma_order_of_encodings(seek, Binary32 { bits: ONE_BITS });
    lemma_order_of_encodings(zero, quality);
    lemma_order_of_encodings(quality, Binary32 { bits: HUNDRED_BITS });
}

/// Collects the settings of a thumbnailer. Values that have a range are
/// checked when they are set, so that a built thumbnailer never holds one
/// outside it.
#[derive(Debug, Clone, Copy)]
pub struct ThumbnailerBuilder {
    maintain_aspect_ratio: bool,
    size: ThumbnailSize,
    seek_percentage: Binary32,
    quality: Binary32,
    prefer_embedded_metadata: bool,
    with_film_strip: bool,
}

impl View for ThumbnailerBuilder {
    type V = Settings;

    closed spec fn view(&self) -> Settings {
        Settings {
            maintain_aspect_ratio: self.maintain_aspect_ratio,
            size: self.size,
            seek_percentage: self.seek_percentage,
            quality: self.quality,
            prefer_embedded_metadata: self.prefer_embedded_metadata,
            with_film_strip: self.with_film_strip,
        }
    }
}

impl Default for ThumbnailerBuilder {
    fn default() -> (builder: Self)
        ensures
            builder@ == default_settings(),
    {
        proof {
            lemma_default_settings_in_range();
        }
        Self {
            maintain_aspect_ratio: true,
            size: ThumbnailSize::Size(DEFAULT_SIZE),
            seek_percentage: Binary32 { bits: DEFAULT_SEEK_PERCENTAGE_BITS },
            quality: Binary32 { bits: DEFAULT_QUALITY_BITS },
            prefer_embedded_metadata: true,
            with_film_strip: true,
        }
    }
}

impl ThumbnailerBuilder {
    #[verifier::type_invariant]
    spec fn in_range(self) -> bool {
        self.seek_percentage.is_fraction() && self.quality.is_percentage()
    }

    /// Starts from the defaults: aspect ratio kept, an edge of 128 pixels,
    /// a seek fraction of a tenth, quality 80, embedded cover art preferred,
    /// film strip on.
    pub fn new() -> (builder: Self)
        ensures
            builder@ == default_settings(),
            builder@.in_range(),
    {
        proof {
            lemma_default_settings_in_range();
        }
        Default::default()
    }

    /// Keeps or drops the aspect ratio of the source when scaling.
    pub fn maintain_aspect_ratio(self, maintain_aspect_ratio: bool) -> (builder: Self)
        ensures
            builder@ == (Settings { maintain_aspect_ratio, ..self@ }),
            builder@.in_range(),
    {
        proof {
            use_type_invariant(&self);
        }
        Self { maintain_aspect_ratio, ..self }
    }

    /// Asks for a thumbnail bounded by one edge length.
    pub fn size(self, size: u32) -> (builder: Self)
        ensures
            builder@ == (Settings { size: ThumbnailSize::Size(size), ..self@ }),
            builder@.in_range(),
    {
        proof {
            use_type_invariant(&self);
        }
        Self { size: ThumbnailSize::Size(size), ..self }
    }

    /// Asks for a thumbnail of a given width and height.
    pub fn width_and_height(self, width: u32, height: u32) -> (builder: Self)
        ensures
            builder@ == (Settings { size: ThumbnailSize::Dimensions { width, height }, ..self@ }),
            builder@.in_range(),
    {
        proof {
            use_type_invariant(&self);
        }
        Self { size: ThumbnailSize::Dimensions { width, height }, ..self }
    }

    /// Sets the fraction of the duration at which the frame is taken. It has
    /// to lie in `[0, 1]`.
    pub fn seek_percentage(self, seek_percentage: Binary32) -> (result: Result<Self, ThumbnailerError>)
        ensures
            seek_percentage.is_fraction() ==> (result matches Ok(builder) && builder@.in_range()
                && builder@ == (Settings { seek_percentage, ..self@ })),
            !seek_percentage.is_fraction() ==> result == Err::<Self, ThumbnailerError>(
                ThumbnailerError::InvalidSeekPercentage(seek_percentage),
            ),
    {
        proof {
            use_type_invariant(&self);
        }
        if !seek_percentage.is_within(Binary32 { bits: ZERO_BITS }, Binary32 { bits: ONE_BITS }) {
            return Err(ThumbnailerError::InvalidSeekPercentage(seek_percentage));
        }
        Ok(Self { seek_percentage, ..self })
    }

    /// Sets the quality of lossy encoding. It has to lie in `[0, 100]`.
    pub fn quality(self, quality: Binary32) -> (result: Result<Self, ThumbnailerError>)
        ensures
            quality.is_percentage() ==> (result matches Ok(builder) && builder@.in_range()
                && builder@ == (Settings { quality, ..self@ })),
            !quality.is_percentage() ==> result == Err::<Self, ThumbnailerError>(
                ThumbnailerError::InvalidQuality(quality),
            ),
    {
        proof {
            use_type_invariant(&self);
        }
        if !quality.is_within(Binary32 { bits: ZERO_BITS }, Binary32 { bits: HUNDRED_BITS }) {
            return Err(ThumbnailerError::InvalidQuality(quality));
        }
        Ok(Self { quality, ..self })
    }

    /// Uses cover art stored in the file, where there is any, in place of a
    /// decoded frame.
    pub fn prefer_embedded_metadata(self, prefer_embedded_metadata: bool) -> (builder: Self)
        ensures
            builder@ == (Settings { prefer_embedded_metadata, ..self@ }),
            builder@.in_range(),
    {
        proof {
            use_type_invariant(&self);
        }
        Self { prefer_embedded_metadata, ..self }
    }

    /// Lays a film strip over the edges of the thumbnail, or leaves it off.
    pub fn with_film_strip(self, with_film_strip: bool) -> (builder: Self)
        ensures
            builder@ == (Settings { with_film_strip, ..self@ }),
            builder@.in_range(),
    {
        proof {
            use_type_invariant(&self);
        }
        Self { with_film_strip, ..self }
    }

    /// Freezes the settings into a thumbnailer.
    pub fn build(self) -> (thumbnailer: Thumbnailer)
        ensures
            thumbnailer@ == self@,
            thumbnailer@.in_range(),
    {
        proof {
            use_type_invariant(&self);
        }
        Thumbnailer { builder: self }
    }
}

/// Drives the making of thumbnails with the settings it was built from.
#[derive(Debug, Clone, Copy)]
pub struct Thumbnailer {
    builder: ThumbnailerBuilder,
}

impl View for Thumbnailer {
    type V = Settings;

    closed spec fn view(&self) -> Settings {
        self.builder@
    }
}

impl Thumbnailer {
    /// Builds a thumbnailer that departs from the defaults in the edge
    /// length and the quality only.
    pub fn with_size_and_quality(size: u32, quality: Binary32) -> (result: Result<Thumbnailer, ThumbnailerError>)
        ensures
            quality.is_percentage() ==> (result matches Ok(thumbnailer) && thumbnailer@ == (Settings {
                size: ThumbnailSize::Size(size),
                quality,
                ..default_settings()
            })),
            !quality.is_percentage() ==> result == Err::<Thumbnailer, ThumbnailerError>(
                ThumbnailerError::InvalidQuality(quality),
            ),
    {
        match ThumbnailerBuilder::new().size(size).quality(quality) {
            Ok(builder) => Ok(builder.build()),
            Err(error) => Err(error),
        }
    }

    /// The settings the thumbnailer was built from.
    pub fn settings(&self) -> (settings: Settings)
        ensures
            settings == self@,
            settings.in_range(),
    {
        proof {
            use_type_invariant(&self.builder);
        }
        Settings {
            maintain_aspect_ratio: self.builder.maintain_aspect_ratio,
            size: self.builder.size,
            seek_percentage: self.builder.seek_percentage,
            quality: self.builder.quality,
            prefer_embedded_metadata: self.builder.prefer_embedded_metadata,
            with_film_strip: self.builder.with_film_strip,
        }
    }
}

} // verus!
