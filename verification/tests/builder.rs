use thumbnailer::binary32::Binary32;
use thumbnailer::thumbnailer::{
    Settings, DEFAULT_QUALITY_BITS, DEFAULT_SEEK_PERCENTAGE_BITS, DEFAULT_SIZE,
};
use thumbnailer::{Thumbnailer, ThumbnailerBuilder, ThumbnailerError, ThumbnailSize};

fn single(value: f32) -> Binary32 {
    Binary32::from_bits(value.to_bits())
}

fn assert_same(a: &Settings, b: &Settings) {
    assert_eq!(a.maintain_aspect_ratio, b.maintain_aspect_ratio);
    assert_eq!(a.size, b.size);
    assert_eq!(a.seek_percentage, b.seek_percentage);
    assert_eq!(a.quality, b.quality);
    assert_eq!(a.prefer_embedded_metadata, b.prefer_embedded_metadata);
    assert_eq!(a.with_film_strip, b.with_film_strip);
}

#[test]
fn default_constants_are_the_documented_numbers() {
    assert_eq!(DEFAULT_SIZE, 128);
    assert_eq!(DEFAULT_SEEK_PERCENTAGE_BITS, 0.1f32.to_bits());
    assert_eq!(DEFAULT_QUALITY_BITS, 80.0f32.to_bits());
}

#[test]
fn new_builder_holds_the_defaults() {
    let settings = ThumbnailerBuilder::new().build().settings();
    assert!(settings.maintain_aspect_ratio);
    assert_eq!(settings.size, ThumbnailSize::Size(128));
    assert_eq!(settings.seek_percentage, single(0.1));
    assert_eq!(settings.quality, single(80.0));
    assert!(settings.prefer_embedded_metadata);
    assert!(settings.with_film_strip);
}

#[test]
fn default_and_new_agree() {
    let a = ThumbnailerBuilder::default().build().settings();
    let b = ThumbnailerBuilder::new().build().settings();
    assert_same(&a, &b);
}

#[test]
fn each_setter_changes_its_own_field_only() {
    let base = ThumbnailerBuilder::new().build().settings();

    let s = ThumbnailerBuilder::new().maintain_aspect_ratio(false).build().settings();
    assert_same(&s, &Settings { maintain_aspect_ratio: false, ..base });

    let s = ThumbnailerBuilder::new().size(256).build().settings();
    assert_same(&s, &Settings { size: ThumbnailSize::Size(256), ..base });

    let s = ThumbnailerBuilder::new().width_and_height(320, 200).build().settings();
    assert_same(&s, &Settings { size: ThumbnailSize::Dimensions { width: 320, height: 200 }, ..base });

    let s = ThumbnailerBuilder::new().seek_percentage(single(0.75)).unwrap().build().settings();
    assert_same(&s, &Settings { seek_percentage: single(0.75), ..base });

    let s = ThumbnailerBuilder::new().quality(single(55.5)).unwrap().build().settings();
    assert_same(&s, &Settings { quality: single(55.5), ..base });

    let s = ThumbnailerBuilder::new().prefer_embedded_metadata(false).build().settings();
    assert_same(&s, &Settings { prefer_embedded_metadata: false, ..base });

    let s = ThumbnailerBuilder::new().with_film_strip(false).build().settings();
    assert_same(&s, &Settings { with_film_strip: false, ..base });
}

#[test]
fn later_setters_keep_what_earlier_ones_set() {
    let s = ThumbnailerBuilder::new()
        .size(64)
        .quality(single(10.0))
        .unwrap()
        .seek_percentage(single(0.5))
        .unwrap()
        .with_film_strip(false)
        .build()
        .settings();
    assert_eq!(s.size, ThumbnailSize::Size(64));
    assert_eq!(s.quality, single(10.0));
    assert_eq!(s.seek_percentage, single(0.5));
    assert!(!s.with_film_strip);
    assert!(s.maintain_aspect_ratio);
    assert!(s.prefer_embedded_metadata);
}

#[test]
fn seek_percentage_accepts_the_whole_closed_range() {
    for value in [0.0f32, -0.0, f32::MIN_POSITIVE, 0.1, 0.5, 0.999_999_94, 1.0] {
        let built = ThumbnailerBuilder::new().seek_percentage(single(value));
        assert_eq!(built.unwrap().build().settings().seek_percentage, single(value));
    }
}

#[test]
fn seek_percentage_rejects_everything_else() {
    for value in [-0.1f32, -f32::MIN_POSITIVE, 1.000_000_1, 2.0, 100.0, f32::INFINITY, f32::NEG_INFINITY, f32::NAN] {
        let refused = ThumbnailerBuilder::new().seek_percentage(single(value));
        match refused {
            Err(ThumbnailerError::InvalidSeekPercentage(given)) => assert_eq!(given, single(value)),
            other => panic!("{value:?} gave {other:?}"),
        }
    }
}

#[test]
fn quality_accepts_the_whole_closed_range() {
    for value in [0.0f32, -0.0, 0.5, 1.0, 80.0, 99.999_99, 100.0] {
        let built = ThumbnailerBuilder::new().quality(single(value));
        assert_eq!(built.unwrap().build().settings().quality, single(value));
    }
}

#[test]
fn quality_rejects_everything_else() {
    for value in [-0.1f32, -1.0, 100.000_01, 101.0, 1.0e9, f32::INFINITY, f32::NEG_INFINITY, f32::NAN] {
        let refused = ThumbnailerBuilder::new().quality(single(value));
        match refused {
            Err(ThumbnailerError::InvalidQuality(given)) => assert_eq!(given, single(value)),
            other => panic!("{value:?} gave {other:?}"),
        }
    }
}

#[test]
fn a_copy_of_the_builder_survives_a_refusal() {
    let builder = ThumbnailerBuilder::new().size(77);
    let kept = builder;
    assert!(builder.quality(single(500.0)).is_err());
    let base = ThumbnailerBuilder::new().size(77).build().settings();
    assert_same(&kept.build().settings(), &base);
}

#[test]
fn with_size_and_quality_departs_from_the_defaults_in_two_fields() {
    let base = ThumbnailerBuilder::new().build().settings();
    let thumbnailer = Thumbnailer::with_size_and_quality(128, single(100.0)).unwrap();
    assert_same(
        &thumbnailer.settings(),
        &Settings { size: ThumbnailSize::Size(128), quality: single(100.0), ..base },
    );
    let thumbnailer = Thumbnailer::with_size_and_quality(512, single(0.0)).unwrap();
    assert_same(
        &thumbnailer.settings(),
        &Settings { size: ThumbnailSize::Size(512), quality: single(0.0), ..base },
    );
}

#[test]
fn with_size_and_quality_refuses_a_quality_out_of_range() {
    match Thumbnailer::with_size_and_quality(128, single(100.5)) {
        Err(ThumbnailerError::InvalidQuality(given)) => assert_eq!(given, single(100.5)),
        other => panic!("gave {other:?}"),
    }
}
