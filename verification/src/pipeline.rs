use vstd::prelude::*;
use crate::binary32::{ONE_BITS, SIGN_BIT};
use crate::error::ThumbnailerError;
use crate::film_strip::{film_strip_filter, with_film_strip, column_of, strip_width};
use crate::scaling::{ThumbnailSize, round_div, lemma_aspect_ratio, lemma_fit_within_box};
use crate::seek::{seek_target, seek_target_of, lemma_seek_start, lemma_seek_end};
use crate::thumbnailer::{Settings, Thumbnailer};
use crate::video_frame::{VideoFrame, rgb_len};

verus! {

/// The dimensions a frame is scaled to, beside those of its source.
#[derive(Debug, Clone, Copy, PartialEq, Eq, Structural)]
pub struct Geometry {
    pub width: u32,
    pub height: u32,
    pub source_width: u32,
    pub source_height: u32,
}

/// How far a run has come. Each stage names what the decoder was last asked
/// to do.
#[derive(Debug, Clone, Copy, PartialEq, Eq, Structural)]
pub enum Stage {
    /// The input is being opened.
    Opening,
    /// The first frame is being decoded; before that neither the duration
    /// nor the presence of cover art can be trusted.
    Priming,
    /// The decoder is moving to the chosen second.
    Seeking { source_width: u32, source_height: u32 },
    /// The decoder is scaling the frame.
    Scaling(Geometry),
    /// The run is over.
    Finished,
}

/// What the decoder reports after it has carried out an action.
#[derive(Debug)]
pub enum Event {
    /// The input is open.
    Opened,
    /// The first frame is decoded. The source dimensions are those of the
    /// picture that will be scaled.
    Primed { has_embedded_metadata: bool, duration_secs: u64, source_width: u32, source_height: u32 },
    /// The decoder stands at the second it was sent to.
    Positioned,
    /// The scaled picture, as packed RGB.
    Scaled(Vec<u8>),
    /// The action failed.
    Failed(ThumbnailerError),
}

/// What the decoder is asked to do next, or how the run ends.
#[derive(Debug)]
pub enum Action {
    Open { prefer_embedded_metadata: bool },
    DecodeFrame,
    Seek { target_seconds: i64 },
    Scale { width: u32, height: u32 },
    /// The run ends with this frame.
    Deliver(VideoFrame),
    /// The run ends with this error.
    Abort(ThumbnailerError),
}

/// A run that cannot go on ends as a decoding failure.
pub open spec fn given_up() -> (Stage, Action) {
    (Stage::Finished, Action::Abort(ThumbnailerError::DecodeFailed))
}

/// The request to scale a picture of the given source dimensions, or the end
/// of the run where there is nothing to scale to. The edges asked for are
/// those of `fit` as they are: `lemma_scale_request_in_box` shows that they
/// are 32-bit numbers.
pub open spec fn scale_request(settings: Settings, source_width: u32, source_height: u32) -> (Stage, Action) {
    let fit = settings.size.fit(settings.maintain_aspect_ratio, source_width, source_height);
    if source_width > 0 && source_height > 0 && fit.0 > 0 && fit.1 > 0 {
        (
            Stage::Scaling(
                Geometry { width: fit.0 as u32, height: fit.1 as u32, source_width, source_height },
            ),
            Action::Scale { width: fit.0 as u32, height: fit.1 as u32 },
        )
    } else {
        given_up()
    }
}

/// The pixels of the finished frame: the scaled picture, under the film
/// strip where the settings ask for one.
pub open spec fn finished_pixels(settings: Settings, scaled: Seq<u8>, width: u32) -> Seq<u8> {
    if settings.with_film_strip {
        with_film_strip(scaled, width)
    } else {
        scaled
    }
}

/// The step of a run: in `stage`, on `event`, the run goes to `next` and asks
/// for `action`.
///
/// A failure ends the run with the error as it came. Cover art that is there
/// and wanted goes straight to scaling; otherwise the decoder is first sent
/// to the chosen second. An event that does not answer the stage's action,
/// a picture of the wrong size or one without pixels ends the run as a
/// decoding failure.
pub open spec fn follows(settings: Settings, stage: Stage, event: Event, next: Stage, action: Action) -> bool {
    match event {
        Event::Failed(error) => next == Stage::Finished && action == Action::Abort(error),
        Event::Opened => (next, action) == if stage == Stage::Opening {
            (Stage::Priming, Action::DecodeFrame)
        } else {
            given_up()
        },
        Event::Primed { has_embedded_metadata, duration_secs, source_width, source_height } => (next, action)
            == if stage != Stage::Priming {
            given_up()
        } else if has_embedded_metadata && settings.prefer_embedded_metadata {
            scale_request(settings, source_width, source_height)
        } else {
            (
                Stage::Seeking { source_width, source_height },
                Action::Seek { target_seconds: seek_target_of(duration_secs, settings.seek_percentage) },
            )
        },
        Event::Positioned => (next, action) == match stage {
            Stage::Seeking { source_width, source_height } => scale_request(settings, source_width, source_height),
            _ => given_up(),
        },
        Event::Scaled(pixels) => match stage {
            Stage::Scaling(geometry) if geometry.width > 0 && geometry.height > 0 && pixels@.len() == rgb_len(
                geometry.width,
                geometry.height,
            ) => {
                &&& next == Stage::Finished
                &&& action matches Action::Deliver(frame)
                &&& frame.width == geometry.width
                &&& frame.height == geometry.height
                &&& frame.source_width == geometry.source_width
                &&& frame.source_height == geometry.source_height
                &&& frame.data@ == finished_pixels(settings, pixels@, geometry.width)
            },
            _ => (next, action) == given_up(),
        },
    }
}

impl Thumbnailer {
    /// Starts a run: the input is to be opened.
    pub fn begin(&self) -> (outcome: (Stage, Action))
        ensures
            outcome == (
                Stage::Opening,
                Action::Open { prefer_embedded_metadata: self@.prefer_embedded_metadata },
            ),
    {
        let settings = self.settings();
        (Stage::Opening, Action::Open { prefer_embedded_metadata: settings.prefer_embedded_metadata })
    }

    /// Takes a run one step further, from what the decoder reported.
    pub fn advance(&self, stage: Stage, event: Event) -> (outcome: (Stage, Action))
        ensures
            follows(self@, stage, event, outcome.0, outcome.1),
    {
        let settings = self.settings();
        match event {
            Event::Failed(error) => (Stage::Finished, Action::Abort(error)),
            Event::Opened => match stage {
                Stage::Opening => (Stage::Priming, Action::DecodeFrame),
                _ => give_up(),
            },
            Event::Primed { has_embedded_metadata, duration_secs, source_width, source_height } => match stage {
                Stage::Priming => {
                    if has_embedded_metadata && settings.prefer_embedded_metadata {
                        request_scale(&settings, source_width, source_height)
                    } else {
                        let target_seconds = seek_target(duration_secs, settings.seek_percentage);
                        (Stage::Seeking { source_width, source_height }, Action::Seek { target_seconds })
                    }
                },
                _ => give_up(),
            },
            Event::Positioned => match stage {
                Stage::Seeking { source_width, source_height } => request_scale(
                    &settings,
                    source_width,
                    source_height,
                ),
                _ => give_up(),
            },
            Event::Scaled(pixels) => match stage {
                Stage::Scaling(geometry) => {
                    let mut frame = VideoFrame {
                        width: geometry.width,
                        height: geometry.height,
                        source_width: geometry.source_width,
                        source_height: geometry.source_height,
                        data: pixels,
                    };
                    if geometry.width == 0 || geometry.height == 0 || !frame.is_well_formed() {
                        return give_up();
                    }
                    if settings.with_film_strip {
                        film_strip_filter(&mut frame);
                    }
                    (Stage::Finished, Action::Deliver(frame))
                },
                _ => give_up(),
            },
        }
    }
}

/// Ends a run that cannot go on.
fn give_up() -> (outcome: (Stage, Action))
    ensures
        outcome == given_up(),
{
    (Stage::Finished, Action::Abort(ThumbnailerError::DecodeFailed))
}

/// Asks for the picture to be scaled to the dimensions the settings give it.
fn request_scale(settings: &Settings, source_width: u32, source_height: u32) -> (outcome: (Stage, Action))
    ensures
        outcome == scale_request(*settings, source_width, source_height),
{
    match settings.size.scaled_dimensions(settings.maintain_aspect_ratio, source_width, source_height) {
        Some((width, height)) => (
            Stage::Scaling(Geometry { width, height, source_width, source_height }),
            Action::Scale { width, height },
        ),
        None => give_up(),
    }
}

/// Two actions ask for the same thing: they are equal, the frames of two
/// deliveries compared by their pixels.
pub open spec fn same_action(first: Action, second: Action) -> bool {
    match (first, second) {
        (Action::Deliver(a), Action::Deliver(b)) => {
            &&& a.width == b.width
            &&& a.height == b.height
            &&& a.source_width == b.source_width
            &&& a.source_height == b.source_height
            &&& a.data@ == b.data@
        },
        _ => first == second,
    }
}

/// A step is decided by the settings, the stage and the event alone: the
/// same run taken twice asks for the same actions and ends with the same
/// frame.
pub proof fn lemma_step_determined(
    settings: Settings,
    stage: Stage,
    event: Event,
    first: (Stage, Action),
    second: (Stage, Action),
)
    requires
        follows(settings, stage, event, first.0, first.1),
        follows(settings, stage, event, second.0, second.1),
    ensures
        first.0 == second.0,
        same_action(first.1, second.1),
{
}

/// The first failure ends the run, and the caller gets the error as it came.
pub proof fn lemma_fail_fast(settings: Settings, stage: Stage, error: ThumbnailerError, next: Stage, action: Action)
    requires
        follows(settings, stage, Event::Failed(error), next, action),
    ensures
        next == Stage::Finished,
        action == Action::Abort(error),
{
}

/// The steps of a run come in one order: the first frame is decoded only
/// once the input is open, a picture is scaled only after the first frame is
/// decoded or the seek is done, and a frame is delivered only for a picture
/// that the scaler handed over.
pub proof fn lemma_steps_in_order(settings: Settings, stage: Stage, event: Event, next: Stage, action: Action)
    requires
        follows(settings, stage, event, next, action),
    ensures
        action !is Open,
        action is DecodeFrame ==> stage == Stage::Opening && event is Opened && next == Stage::Priming,
        action is Scale ==> next is Scaling && ((stage == Stage::Priming && event is Primed) || (stage is Seeking
            && event is Positioned)),
        action is Deliver ==> stage is Scaling && event is Scaled && next == Stage::Finished,
        action is Abort ==> next == Stage::Finished,
{
}

/// A seek is asked for at one point only: when the first frame is decoded
/// and cover art is missing or not wanted. With cover art that is there and
/// wanted no step of the run asks for one.
pub proof fn lemma_seek_only_without_cover_art(
    settings: Settings,
    stage: Stage,
    event: Event,
    next: Stage,
    action: Action,
)
    requires
        follows(settings, stage, event, next, action),
        action is Seek,
    ensures
        stage == Stage::Priming,
        event is Primed,
        !(event->has_embedded_metadata && settings.prefer_embedded_metadata),
        next is Seeking,
{
}

/// A seek fraction of zero sends the decoder to second 0. A seek fraction of
/// one sends it to the last whole second, the duration itself.
pub proof fn lemma_seek_boundaries(
    settings: Settings,
    duration_secs: u64,
    source_width: u32,
    source_height: u32,
    next: Stage,
    action: Action,
)
    requires
        follows(
            settings,
            Stage::Priming,
            Event::Primed { has_embedded_metadata: false, duration_secs, source_width, source_height },
            next,
            action,
        ),
    ensures
        settings.seek_percentage.bits % SIGN_BIT == 0 ==> action == (Action::Seek { target_seconds: 0 }),
        settings.seek_percentage.bits == ONE_BITS && duration_secs <= i64::MAX ==> action == (Action::Seek {
            target_seconds: duration_secs as i64,
        }),
{
    if settings.seek_percentage.bits % SIGN_BIT == 0 {
        lemma_seek_start(duration_secs, settings.seek_percentage);
    }
    if settings.seek_percentage.bits == ONE_BITS {
        lemma_seek_end(duration_secs);
    }
}

/// The dimensions asked of the scaler are those the settings give the
/// picture, none of them cut short: each is at least one pixel and none
/// leaves the box.
pub proof fn lemma_scale_request_in_box(settings: Settings, source_width: u32, source_height: u32)
    requires
        scale_request(settings, source_width, source_height).1 is Scale,
    ensures
        ({
            let fit = settings.size.fit(settings.maintain_aspect_ratio, source_width, source_height);
            let request = scale_request(settings, source_width, source_height);
            &&& request.1->width == fit.0
            &&& request.1->height == fit.1
            &&& 1 <= fit.0 <= settings.size.box_width()
            &&& 1 <= fit.1 <= settings.size.box_height()
            &&& request.0 == Stage::Scaling(
                Geometry { width: request.1->width, height: request.1->height, source_width, source_height },
            )
        }),
{
    lemma_fit_within_box(settings.size, settings.maintain_aspect_ratio, source_width, source_height);
}

/// A delivered frame holds at least one pixel: its width and height are
/// positive and its buffer has three bytes for each pixel.
pub proof fn lemma_delivered_frame_populated(
    settings: Settings,
    stage: Stage,
    event: Event,
    next: Stage,
    action: Action,
)
    requires
        follows(settings, stage, event, next, action),
        action is Deliver,
    ensures
        action->Deliver_0.populated(),
{
    if settings.with_film_strip {
        assert(action->Deliver_0.data@.len() == event->Scaled_0@.len());
    }
}

/// With the aspect ratio kept and a single edge length, the longer edge
/// asked of the scaler is that length and the shorter one is the length
/// times the shorter source edge over the longer one, rounded.
pub proof fn lemma_scale_keeps_aspect_ratio(settings: Settings, edge: u32, source_width: u32, source_height: u32)
    requires
        settings.maintain_aspect_ratio,
        settings.size == ThumbnailSize::Size(edge),
        scale_request(settings, source_width, source_height).1 is Scale,
    ensures
        ({
            let action = scale_request(settings, source_width, source_height).1;
            let longer = if source_width >= source_height {
                source_width
            } else {
                source_height
            };
            let shorter = if source_width >= source_height {
                source_height
            } else {
                source_width
            };
            let scaled_longer = if source_width >= source_height {
                action->width
            } else {
                action->height
            };
            let scaled_shorter = if source_width >= source_height {
                action->height
            } else {
                action->width
            };
            &&& scaled_longer == edge
            &&& scaled_shorter == round_div(edge as nat * shorter as nat, longer as nat)
            &&& scaled_shorter <= scaled_longer
        }),
{
    lemma_aspect_ratio(edge, source_width, source_height);
}

/// The frame a run delivers has the dimensions asked of the scaler, and its
/// source dimensions are those the decoder reported before scaling, whether
/// or not the run went through a seek.
pub proof fn lemma_source_dimensions_kept(
    settings: Settings,
    has_embedded_metadata: bool,
    duration_secs: u64,
    source_width: u32,
    source_height: u32,
    primed: (Stage, Action),
    positioned: (Stage, Action),
    pixels: Vec<u8>,
    scaled: (Stage, Action),
)
    requires
        follows(
            settings,
            Stage::Priming,
            Event::Primed { has_embedded_metadata, duration_secs, source_width, source_height },
            primed.0,
            primed.1,
        ),
        primed.0 is Seeking ==> follows(settings, primed.0, Event::Positioned, positioned.0, positioned.1),
        !(primed.0 is Seeking) ==> positioned == primed,
        follows(settings, positioned.0, Event::Scaled(pixels), scaled.0, scaled.1),
        scaled.1 is Deliver,
    ensures
        positioned.1 is Scale,
        scaled.1->Deliver_0.width == positioned.1->width,
        scaled.1->Deliver_0.height == positioned.1->height,
        scaled.1->Deliver_0.source_width == source_width,
        scaled.1->Deliver_0.source_height == source_height,
{
}

/// Without the film strip the delivered pixels are the scaled picture, byte
/// for byte. With it they differ from the scaled picture in the two bands
/// at most: every byte between the bands is kept.
pub proof fn lemma_film_strip_toggle(
    settings: Settings,
    geometry: Geometry,
    pixels: Vec<u8>,
    next: Stage,
    action: Action,
)
    requires
        follows(settings, Stage::Scaling(geometry), Event::Scaled(pixels), next, action),
        action is Deliver,
    ensures
        action->Deliver_0.data@.len() == pixels@.len(),
        !settings.with_film_strip ==> action->Deliver_0.data@ == pixels@,
        forall|i: int|
            0 <= i < pixels@.len() && strip_width(geometry.width) <= column_of(i, geometry.width as int)
                < geometry.width - strip_width(geometry.width) ==> #[trigger] action->Deliver_0.data@[i]
                == pixels@[i],
{
}

} // verus!
