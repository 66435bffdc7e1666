use vstd::prelude::*;
use vstd::arithmetic::div_mod::{lemma_fundamental_div_mod, lemma_fundamental_div_mod_converse};
use crate::video_frame::{VideoFrame, rgb_len};

verus! {

/// Shade of the band that runs along both edges.
pub const BAND_SHADE: u8 = 0;

/// Shade of the sprocket holes punched into the band.
pub const HOLE_SHADE: u8 = 255;

/// Width in pixels of the band on each side of a frame `width` pixels wide.
/// Frames of eight pixels or fewer get none.
pub open spec fn strip_width(width: u32) -> nat {
    if width <= 8 {
        0
    } else if width <= 96 {
        4
    } else if width <= 192 {
        8
    } else if width <= 384 {
        16
    } else if width <= 768 {
        32
    } else {
        64
    }
}

/// Shade of the band at `column`, counted from the frame's edge inwards, in
/// row `row`. The pattern repeats every `strip` rows: a square hole in the
/// middle of each tile, a quarter of the band's width away from its sides.
pub open spec fn strip_shade(strip: int, column: int, row: int) -> u8 {
    let margin = strip / 4;
    if margin <= column < strip - margin && margin <= row % strip < strip - margin {
        HOLE_SHADE
    } else {
        BAND_SHADE
    }
}

/// Column of the pixel that byte `i` of a packed RGB buffer belongs to.
pub open spec fn column_of(i: int, width: int) -> int {
    (i / 3) % width
}

/// Row of the pixel that byte `i` of a packed RGB buffer belongs to.
pub open spec fn row_of(i: int, width: int) -> int {
    (i / 3) / width
}

/// Byte `i` of the decorated picture: the band's shade within the band on
/// either side, the picture's own byte between the two.
pub open spec fn filtered_byte(data: Seq<u8>, width: u32, i: int) -> u8 {
    let strip = strip_width(width) as int;
    let column = column_of(i, width as int);
    let row = row_of(i, width as int);
    if strip == 0 {
        data[i]
    } else if column < strip {
        strip_shade(strip, column, row)
    } else if column >= width - strip {
        strip_shade(strip, width - 1 - column, row)
    } else {
        data[i]
    }
}

/// The picture with the film strip laid over its left and right edges.
pub open spec fn with_film_strip(data: Seq<u8>, width: u32) -> Seq<u8> {
    Seq::new(data.len(), |i: int| filtered_byte(data, width, i))
}

/// Byte `i` belongs to a pixel that is finished once the rows above `row` are
/// done and `column` columns of `row` are done on either side.
spec fn painted(i: int, width: int, row: int, column: int) -> bool {
    row_of(i, width) < row || (row_of(i, width) == row && (column_of(i, width) < column
        || column_of(i, width) >= width - column))
}

/// Where byte `i` lies in a picture `width` pixels wide.
proof fn lemma_coordinates(i: int, width: int)
    requires
        0 <= i,
        0 < width,
    ensures
        0 <= column_of(i, width) < width,
        0 <= row_of(i, width),
        i / 3 == row_of(i, width) * width + column_of(i, width),
        3 * (i / 3) <= i < 3 * (i / 3) + 3,
{
    lemma_fundamental_div_mod(i / 3, width);
    assert(width * ((i / 3) / width) == ((i / 3) / width) * width) by (nonlinear_arith);
    assert(0 <= (i / 3) / width) by (nonlinear_arith)
        requires
            0 <= i / 3,
            0 < width,
            i / 3 == width * ((i / 3) / width) + (i / 3) % width,
            0 <= (i / 3) % width < width,
    ;
}

/// Which bytes the pixel in column `x` of row `y` occupies.
proof fn lemma_pixel_position(width: int, x: int, y: int, channel: int)
    requires
        0 <= x < width,
        0 <= y,
        0 <= channel < 3,
    ensures
        column_of((y * width + x) * 3 + channel, width) == x,
        row_of((y * width + x) * 3 + channel, width) == y,
        ((y * width + x) * 3 + channel) / 3 == y * width + x,
        0 <= y * width + x,
{
    let p = y * width + x;
    assert(0 <= y * width) by (nonlinear_arith)
        requires
            0 <= y,
            0 < width,
    ;
    assert((p * 3 + channel) / 3 == p);
    assert(p == width * y + x) by (nonlinear_arith)
        requires
            p == y * width + x,
    ;
    lemma_fundamental_div_mod_converse(p, width, y, x);
}

/// A pixel inside the picture lies inside the buffer.
proof fn lemma_pixel_in_bounds(width: int, height: int, x: int, y: int)
    requires
        0 <= x < width,
        0 <= y < height,
    ensures
        0 <= y * width <= y * width + x,
        (y * width + x) * 3 + 3 <= width * height * 3,
{
    assert(0 <= y * width && y * width + width <= width * height) by (nonlinear_arith)
        requires
            0 <= y < height,
            0 < width,
    ;
}

/// Every byte of the buffer lies in one of the picture's rows.
proof fn lemma_row_in_picture(i: int, width: int, height: int)
    requires
        0 < width,
        0 <= i < width * height * 3,
    ensures
        row_of(i, width) < height,
{
    lemma_coordinates(i, width);
    let r = row_of(i, width);
    let c = column_of(i, width);
    assert(r < height) by (nonlinear_arith)
        requires
            i / 3 == r * width + c,
            0 <= c,
            0 < width,
            i / 3 < width * height,
    ;
}

/// Outside the two bands the decorated picture is the picture itself.
pub proof fn lemma_interior_kept(data: Seq<u8>, width: u32, i: int)
    requires
        0 <= i < data.len(),
        strip_width(width) <= column_of(i, width as int) < width - strip_width(width),
    ensures
        with_film_strip(data, width)[i] == data[i],
{
}

/// Frames too narrow for a band come out as they went in.
pub proof fn lemma_narrow_frame_kept(data: Seq<u8>, width: u32)
    requires
        width <= 8,
    ensures
        with_film_strip(data, width) == data,
{
    assert(with_film_strip(data, width) =~= data);
}

/// Width of the band for a frame `width` pixels wide.
pub fn strip_width_for(width: u32) -> (strip: u32)
    ensures
        strip == strip_width(width),
        2 * strip <= width,
        strip == 0 || strip >= 4,
{
    if width <= 8 {
        0
    } else if width <= 96 {
        4
    } else if width <= 192 {
        8
    } else if width <= 384 {
        16
    } else if width <= 768 {
        32
    } else {
        64
    }
}

/// Sets the three bytes of the pixel that starts at `base`.
fn paint_pixel(data: &mut Vec<u8>, base: usize, shade: u8)
    requires
        base + 3 <= old(data)@.len(),
    ensures
        final(data)@ == old(data)@.update(base as int, shade).update(base + 1, shade).update(
            base + 2,
            shade,
        ),
{
    assert(data@.len() == data.len());
    data[base] = shade;
    data[base + 1] = shade;
    data[base + 2] = shade;
}

/// Lays the film strip over the left and right edges of a packed RGB buffer.
fn paint_strips(data: &mut Vec<u8>, width: u32, height: u32)
    requires
        old(data)@.len() == rgb_len(width, height),
    ensures
        final(data)@ == with_film_strip(old(data)@, width),
{
    let strip: usize = strip_width_for(width) as usize;
    if strip == 0 {
        proof {
            assert(with_film_strip(data@, width) =~= data@);
        }
        return ;
    }
    let w: usize = width as usize;
    let h: usize = height as usize;
    let margin: usize = strip / 4;
    let ghost before = data@;
    assert(before.len() == data.len());
    let ghost wi = width as int;
    let ghost hi = height as int;
    assert(before.len() == wi * hi * 3) by (nonlinear_arith)
        requires
            before.len() == (width as nat) * (height as nat) * 3,
            wi == width as int,
            hi == height as int,
    ;
    let mut y: usize = 0;
    while y < h
        invariant
            y <= h,
            w == width,
            h == height,
            wi == width as int,
            hi == height as int,
            strip == strip_width(width),
            strip >= 4,
            2 * strip <= w,
            margin == strip / 4,
            data@.len() == before.len(),
            before.len() == wi * hi * 3,
            before.len() <= usize::MAX,
            forall|i: int|
                0 <= i < before.len() ==> #[trigger] data@[i] == (if painted(i, wi, y as int, 0) {
                    filtered_byte(before, width, i)
                } else {
                    before[i]
                }),
        decreases h - y,
    {
        let in_hole_rows: bool = margin <= y % strip && y % strip < strip - margin;
        proof {
            lemma_pixel_in_bounds(wi, hi, 0, y as int);
        }
        let row_start: usize = y * w;
        let mut c: usize = 0;
        while c < strip
            invariant
                c <= strip,
                y < h,
                w == width,
                h == height,
                wi == width as int,
                hi == height as int,
                strip == strip_width(width),
                strip >= 4,
                2 * strip <= w,
                margin == strip / 4,
                row_start == y * w,
                in_hole_rows == (margin <= (y as int) % (strip as int) < strip - margin),
                data@.len() == before.len(),
                before.len() == wi * hi * 3,
                before.len() <= usize::MAX,
                forall|i: int|
                    0 <= i < before.len() ==> #[trigger] data@[i] == (if painted(
                        i,
                        wi,
                        y as int,
                        c as int,
                    ) {
                        filtered_byte(before, width, i)
                    } else {
                        before[i]
                    }),
            decreases strip - c,
        {
            let shade: u8 = if in_hole_rows && margin <= c && c < strip - margin {
                HOLE_SHADE
            } else {
                BAND_SHADE
            };
            let mirrored: usize = w - 1 - c;
            proof {
                lemma_pixel_in_bounds(wi, hi, c as int, y as int);
                lemma_pixel_in_bounds(wi, hi, mirrored as int, y as int);
            }
            let left: usize = (row_start + c) * 3;
            let right: usize = (row_start + mirrored) * 3;
            let ghost earlier = data@;
            paint_pixel(data, left, shade);
            paint_pixel(data, right, shade);
            proof {
                let yi = y as int;
                let ci = c as int;
                let mi = mirrored as int;
                assert forall|i: int| 0 <= i < before.len() implies #[trigger] data@[i] == (
                if painted(i, wi, yi, ci + 1) {
                    filtered_byte(before, width, i)
                } else {
                    before[i]
                }) by {
                    lemma_coordinates(i, wi);
                    lemma_pixel_position(wi, ci, yi, 0);
                    lemma_pixel_position(wi, mi, yi, 0);
                    let p = i / 3;
                    if p == yi * wi + ci {
                        assert(left <= i < left + 3);
                        assert(column_of(i, wi) == ci && row_of(i, wi) == yi) by {
                            lemma_pixel_position(wi, ci, yi, i - left);
                        }
                        assert(data@[i] == shade);
                    } else if p == yi * wi + mi {
                        assert(right <= i < right + 3);
                        assert(column_of(i, wi) == mi && row_of(i, wi) == yi) by {
                            lemma_pixel_position(wi, mi, yi, i - right);
                        }
                        assert(data@[i] == shade);
                    } else {
                        assert(!(left <= i < left + 3));
                        assert(!(right <= i < right + 3));
                        assert(data@[i] == earlier[i]);
                        assert(painted(i, wi, yi, ci + 1) == painted(i, wi, yi, ci));
                    }
                }
            }
            c = c + 1;
        }
        proof {
            assert forall|i: int| 0 <= i < before.len() implies #[trigger] data@[i] == (if painted(
                i,
                wi,
                y as int + 1,
                0,
            ) {
                filtered_byte(before, width, i)
            } else {
                before[i]
            }) by {
                lemma_coordinates(i, wi);
            }
        }
        y = y + 1;
    }
    proof {
        assert forall|i: int| 0 <= i < before.len() implies data@[i] == filtered_byte(
            before,
            width,
            i,
        ) by {
            lemma_row_in_picture(i, wi, hi);
        }
        assert(data@ =~= with_film_strip(before, width));
    }
}

/// Overlays the film strip on a frame in place: a dark band with light
/// sprocket holes down the left and the right edge. The frame keeps its
/// dimensions; the pixels between the bands keep their values.
pub fn film_strip_filter(video_frame: &mut VideoFrame)
    requires
        old(video_frame).wf(),
    ensures
        final(video_frame).wf(),
        final(video_frame).width == old(video_frame).width,
        final(video_frame).height == old(video_frame).height,
        final(video_frame).source_width == old(video_frame).source_width,
        final(video_frame).source_height == old(video_frame).source_height,
        final(video_frame).data@ == with_film_strip(old(video_frame).data@, old(video_frame).width),
{
    let width = video_frame.width;
    let height = video_frame.height;
    paint_strips(&mut video_frame.data, width, height);
}

} // verus!
