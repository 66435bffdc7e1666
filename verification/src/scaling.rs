use vstd::prelude::*;
use vstd::arithmetic::div_mod::lemma_fundamental_div_mod;
use crate::video_frame::lemma_product_fits;

verus! {

/// The size a thumbnail is asked to have: one edge length, which bounds both
/// edges, or a width and a height.
#[derive(Debug, Clone, Copy, PartialEq, Eq, Structural)]
pub enum ThumbnailSize {
    Size(u32),
    Dimensions { width: u32, height: u32 },
}

/// The quotient `n / d` rounded to the nearest whole number, a half going up.
pub open spec fn round_div(n: nat, d: nat) -> nat {
    (2 * n + d) / (2 * d)
}

impl ThumbnailSize {
    /// Width of the box the thumbnail has to fit.
    pub open spec fn box_width(self) -> nat {
        match self {
            ThumbnailSize::Size(edge) => edge as nat,
            ThumbnailSize::Dimensions { width, .. } => width as nat,
        }
    }

    /// Height of the box the thumbnail has to fit.
    pub open spec fn box_height(self) -> nat {
        match self {
            ThumbnailSize::Size(edge) => edge as nat,
            ThumbnailSize::Dimensions { height, .. } => height as nat,
        }
    }

    /// The dimensions a picture of `source_width` by `source_height` is
    /// scaled to. Without the aspect ratio the picture is stretched to the
    /// box. With it, the edge that reaches the box first takes the box's
    /// length and the other edge follows in proportion, rounded.
    pub open spec fn fit(self, maintain_aspect_ratio: bool, source_width: u32, source_height: u32) -> (nat, nat) {
        let w = self.box_width();
        let h = self.box_height();
        if !maintain_aspect_ratio {
            (w, h)
        } else if source_width as nat * h >= source_height as nat * w {
            (w, round_div(w * source_height as nat, source_width as nat))
        } else {
            (round_div(h * source_width as nat, source_height as nat), h)
        }
    }

    /// Computes the dimensions to scale a picture to. There are none where
    /// the source has no pixels or where an edge would round to nothing.
    pub fn scaled_dimensions(
        self,
        maintain_aspect_ratio: bool,
        source_width: u32,
        source_height: u32,
    ) -> (dimensions: Option<(u32, u32)>)
        ensures
            dimensions is Some <==> source_width > 0 && source_height > 0
                && self.fit(maintain_aspect_ratio, source_width, source_height).0 > 0
                && self.fit(maintain_aspect_ratio, source_width, source_height).1 > 0,
            dimensions matches Some((width, height)) ==> (width as nat, height as nat) == self.fit(
                maintain_aspect_ratio,
                source_width,
                source_height,
            ),
    {
        let (w, h): (u32, u32) = match self {
            ThumbnailSize::Size(edge) => (edge, edge),
            ThumbnailSize::Dimensions { width, height } => (width, height),
        };
        if source_width == 0 || source_height == 0 {
            return None;
        }
        let (width, height): (u32, u32) = if !maintain_aspect_ratio {
            (w, h)
        } else {
            proof {
                lemma_product_fits(source_width, h);
                lemma_product_fits(source_height, w);
            }
            if (source_width as u64) * (h as u64) >= (source_height as u64) * (w as u64) {
                assert(w as nat * source_height as nat <= source_width as nat * h as nat) by (nonlinear_arith)
                    requires
                        source_width as nat * h as nat >= source_height as nat * w as nat,
                ;
                (w, proportional_edge(w, source_height, source_width, h))
            } else {
                assert(h as nat * source_width as nat <= source_height as nat * w as nat) by (nonlinear_arith)
                    requires
                        (source_width as nat * h as nat) < source_height as nat * w as nat,
                ;
                (proportional_edge(h, source_width, source_height, w), h)
            }
        };
        if width == 0 || height == 0 {
            None
        } else {
            Some((width, height))
        }
    }
}

/// `edge * numerator / denominator`, rounded, for a ratio that keeps the
/// result within `limit`.
fn proportional_edge(edge: u32, numerator: u32, denominator: u32, limit: u32) -> (scaled: u32)
    requires
        denominator > 0,
        edge as nat * numerator as nat <= denominator as nat * limit as nat,
    ensures
        scaled as nat == round_div(edge as nat * numerator as nat, denominator as nat),
        scaled <= limit,
{
    proof {
        lemma_product_fits(edge, numerator);
        lemma_round_div_bound(edge as nat * numerator as nat, denominator as nat, limit as nat);
    }
    let product: u64 = (edge as u64) * (numerator as u64);
    let doubled: u128 = 2 * (product as u128) + (denominator as u128);
    let quotient: u128 = doubled / (2 * (denominator as u128));
    quotient as u32
}

/// Rounding a quotient that is at most `q` gives at most `q`.
pub proof fn lemma_round_div_bound(n: nat, d: nat, q: nat)
    requires
        d > 0,
        n <= d * q,
    ensures
        round_div(n, d) <= q,
{
    let top = (2 * n + d) as int;
    let bottom = (2 * d) as int;
    lemma_fundamental_div_mod(top, bottom);
    assert(top / bottom <= q) by (nonlinear_arith)
        requires
            top == bottom * (top / bottom) + top % bottom,
            0 <= top % bottom < bottom,
            top == 2 * n + d,
            bottom == 2 * d,
            d > 0,
            n <= d * q,
    ;
}

/// The dimensions a picture with pixels is scaled to never leave the box, so
/// each of them is a 32-bit number.
pub proof fn lemma_fit_within_box(
    size: ThumbnailSize,
    maintain_aspect_ratio: bool,
    source_width: u32,
    source_height: u32,
)
    requires
        source_width > 0,
        source_height > 0,
    ensures
        size.fit(maintain_aspect_ratio, source_width, source_height).0 <= size.box_width(),
        size.fit(maintain_aspect_ratio, source_width, source_height).1 <= size.box_height(),
        size.box_width() <= u32::MAX,
        size.box_height() <= u32::MAX,
{
    let w = size.box_width();
    let h = size.box_height();
    let sw = source_width as nat;
    let sh = source_height as nat;
    if maintain_aspect_ratio {
        if sw * h >= sh * w {
            assert(w * sh <= sw * h) by (nonlinear_arith)
                requires
                    sw * h >= sh * w,
            ;
            lemma_round_div_bound(w * sh, sw, h);
        } else {
            assert(h * sw <= sh * w) by (nonlinear_arith)
                requires
                    sw * h < sh * w,
            ;
            lemma_round_div_bound(h * sw, sh, w);
        }
    }
}

/// With the aspect ratio kept and a single edge length `edge`, the longer
/// edge of the result is `edge` and the shorter one is `edge` times the
/// shorter source edge over the longer one, rounded.
pub proof fn lemma_aspect_ratio(edge: u32, source_width: u32, source_height: u32)
    requires
        source_width > 0,
        source_height > 0,
    ensures
        source_width >= source_height ==> ThumbnailSize::Size(edge).fit(true, source_width, source_height) == (
            edge as nat,
            round_div(edge as nat * source_height as nat, source_width as nat),
        ),
        source_width < source_height ==> ThumbnailSize::Size(edge).fit(true, source_width, source_height) == (
            round_div(edge as nat * source_width as nat, source_height as nat),
            edge as nat,
        ),
        ThumbnailSize::Size(edge).fit(true, source_width, source_height).0 <= edge,
        ThumbnailSize::Size(edge).fit(true, source_width, source_height).1 <= edge,
{
    let e = edge as nat;
    let sw = source_width as nat;
    let sh = source_height as nat;
    if source_width >= source_height {
        assert(sw * e >= sh * e) by (nonlinear_arith)
            requires
                sw >= sh,
        ;
        assert(e * sh <= sw * e) by (nonlinear_arith)
            requires
                sw >= sh,
        ;
        lemma_round_div_bound(e * sh, sw, e);
    } else {
        assert(!(sw * e >= sh * e) || e == 0) by (nonlinear_arith)
            requires
                sw < sh,
        ;
        assert(e * sw <= sh * e) by (nonlinear_arith)
            requires
                sw < sh,
        ;
        lemma_round_div_bound(e * sw, sh, e);
        if e == 0 {
            assert(sw * e == 0) by (nonlinear_arith)
                requires
                    e == 0,
            ;
            assert(e * sh == 0) by (nonlinear_arith)
                requires
                    e == 0,
            ;
            assert(e * sw == 0) by (nonlinear_arith)
                requires
                    e == 0,
            ;
            assert(sh * e == 0) by (nonlinear_arith)
                requires
                    e == 0,
            ;
            lemma_round_div_bound(0, sw, 0);
            lemma_round_div_bound(0, sh, 0);
        }
    }
}

} // verus!
