//! Images, pixel by pixel.
use crate::filters::FilterView;
use crate::pixels::{
    blended, blues, exceeds, greens, is_histogram, is_peak, is_result, laid_over, lemma_painted,
    may_apply, middle_of, need_of, plain, reds, resized, rotated, tally, upright_turn, Given, Image,
    ImageHistogram, Pixels,
};
use vstd::prelude::*;

verus! {

/// The place of a pixel within an image.
proof fn lemma_place(width: int, height: int, x: int, y: int)
    requires
        0 <= x < width,
        0 <= y < height,
    ensures
        0 <= y * width + x < width * height,
{
    assert(0 <= y * width + x < width * height) by (nonlinear_arith)
        requires
            0 <= x < width,
            0 <= y < height,
    ;
}

/// The pixels of an image lie row by row, each as red, green, blue and opacity.
pub proof fn pixels_lie_row_by_row(img: Pixels, x: int, y: int)
    requires
        img.wf(),
        0 <= x < img.width,
        0 <= y < img.height,
    ensures
        img@.width == img.width,
        img@.height == img.height,
        img@.at(x, y).r == img.data@[4 * (y * img.width + x)],
        img@.at(x, y).g == img.data@[4 * (y * img.width + x) + 1],
        img@.at(x, y).b == img.data@[4 * (y * img.width + x) + 2],
        img@.at(x, y).a == img.data@[4 * (y * img.width + x) + 3],
{
    lemma_place(img.width as int, img.height as int, x, y);
}

/// Exposure and contrast look up red, green and blue of every pixel in one and the same table, and
/// keep its opacity. So a grey pixel stays grey.
pub proof fn tones_treat_channels_alike(
    f: FilterView,
    img: Pixels,
    given: Given,
    r: Pixels,
    x: int,
    y: int,
)
    requires
        f is Exposure || f is Contrast,
        may_apply(f, img, given),
        is_result(f, img, given, r),
        0 <= x < img.width,
        0 <= y < img.height,
    ensures
        given is Table,
        r.width == img.width,
        r.height == img.height,
        r@.at(x, y).r == given->Table_0@[img@.at(x, y).r as int],
        r@.at(x, y).g == given->Table_0@[img@.at(x, y).g as int],
        r@.at(x, y).b == given->Table_0@[img@.at(x, y).b as int],
        r@.at(x, y).a == img@.at(x, y).a,
        img@.at(x, y).r == img@.at(x, y).g == img@.at(x, y).b ==> r@.at(x, y).r == r@.at(x, y).g
            == r@.at(x, y).b,
{
    lemma_place(img.width as int, img.height as int, x, y);
    assert(r@.width == img@.width && r@.height == img@.height);
}

/// Curves look up each channel of every pixel in the table of its own curve, and keep its opacity.
/// A channel whose curve has no points stays as it is.
pub proof fn curves_treat_channels_apart(
    f: FilterView,
    img: Pixels,
    given: Given,
    r: Pixels,
    x: int,
    y: int,
)
    requires
        f is Curves,
        may_apply(f, img, given),
        is_result(f, img, given, r),
        0 <= x < img.width,
        0 <= y < img.height,
    ensures
        given is Tables,
        r.width == img.width,
        r.height == img.height,
        r@.at(x, y).r == if f->Curves_r.len() == 0 {
            img@.at(x, y).r
        } else {
            given->Tables_r@[img@.at(x, y).r as int]
        },
        r@.at(x, y).g == if f->Curves_g.len() == 0 {
            img@.at(x, y).g
        } else {
            given->Tables_g@[img@.at(x, y).g as int]
        },
        r@.at(x, y).b == if f->Curves_b.len() == 0 {
            img@.at(x, y).b
        } else {
            given->Tables_b@[img@.at(x, y).b as int]
        },
        r@.at(x, y).a == img@.at(x, y).a,
{
    lemma_place(img.width as int, img.height as int, x, y);
    assert(r@.width == img@.width && r@.height == img@.height);
}

/// A horizontal flip puts every pixel as far from the right edge as it was from the left one, in
/// its row. A vertical flip does so with rows.
pub proof fn flips_move_pixels_across(
    f: FilterView,
    img: Pixels,
    given: Given,
    r: Pixels,
    x: int,
    y: int,
)
    requires
        f is FlipHorizontal || f is FlipVertical,
        is_result(f, img, given, r),
        0 <= x < img.width,
        0 <= y < img.height,
    ensures
        r.width == img.width,
        r.height == img.height,
        f is FlipHorizontal ==> r@.at(img.width - 1 - x, y) == img@.at(x, y),
        f is FlipVertical ==> r@.at(x, img.height - 1 - y) == img@.at(x, y),
{
    let i = img@;
    lemma_painted(i.width, i.height, |a: int, b: int| i.at(i.width - 1 - a, b));
    lemma_painted(i.width, i.height, |a: int, b: int| i.at(a, i.height - 1 - b));
    assert(r@.width == img@.width && r@.height == img@.height);
}

/// A quarter turn clockwise brings the top row to the right edge, a half turn to the bottom, and a
/// turn by three quarters to the left edge. A whole turn moves nothing.
#[verifier::spinoff_prover]
pub proof fn turns_move_pixels_clockwise(
    f: FilterView,
    img: Pixels,
    given: Given,
    r: Pixels,
    x: int,
    y: int,
)
    requires
        f is Rotate,
        f->center is None,
        f->degrees as int % 90 == 0,
        is_result(f, img, given, r),
        0 <= x < img.width,
        0 <= y < img.height,
    ensures
        f->degrees as int % 360 == 0 ==> r@ == img@,
        f->degrees as int % 360 == 90 ==> r.width == img.height && r.height == img.width && r@.at(
            img.height - 1 - y,
            x,
        ) == img@.at(x, y),
        f->degrees as int % 360 == 180 ==> r.width == img.width && r.height == img.height && r@.at(
            img.width - 1 - x,
            img.height - 1 - y,
        ) == img@.at(x, y),
        f->degrees as int % 360 == 270 ==> r.width == img.height && r.height == img.width && r@.at(
            y,
            img.width - 1 - x,
        ) == img@.at(x, y),
{
    let i = img@;
    lemma_painted(i.height, i.width, |a: int, b: int| i.at(b, i.height - 1 - a));
    lemma_painted(i.width, i.height, |a: int, b: int| i.at(i.width - 1 - a, i.height - 1 - b));
    lemma_painted(i.height, i.width, |a: int, b: int| i.at(i.width - 1 - b, a));
    assert(r@.width == r.width && r@.height == r.height);
}

/// A turn by another angle, or about a place of its own, gives the image that was worked out for
/// it, and so do sharpening and clarity of some strength.
pub proof fn worked_out_images_are_taken(f: FilterView, img: Pixels, given: Given, r: Pixels)
    requires
        may_apply(f, img, given),
        is_result(f, img, given, r),
        need_of(f, img.width, img.height) is Image,
    ensures
        given matches Given::Image(out) && r@ == out@,
{
}

/// A crop shows the part of the image that begins at the asked corner, moved into the image where
/// it lies outside. It has the asked size, cut off at the edges, and of an image with pixels at
/// least one.
#[verifier::spinoff_prover]
pub proof fn crops_show_a_part(
    f: FilterView,
    img: Pixels,
    given: Given,
    r: Pixels,
    x: int,
    y: int,
)
    requires
        f is Crop,
        may_apply(f, img, given),
        is_result(f, img, given, r),
        img.width > 0,
        img.height > 0,
        0 <= x < r.width,
        0 <= y < r.height,
    ensures
        given is Region,
        ({
            let left: int = if given->x < img.width {
                given->x as int
            } else {
                img.width - 1
            };
            let top: int = if given->y < img.height {
                given->y as int
            } else {
                img.height - 1
            };
            &&& r@.at(x, y) == img@.at(left + x, top + y)
            &&& left + x < img.width
            &&& top + y < img.height
            &&& r.width == if given->Region_width == 0 {
                1
            } else if left + given->Region_width > img.width {
                img.width - left
            } else {
                given->Region_width as int
            }
            &&& r.height == if given->Region_height == 0 {
                1
            } else if top + given->Region_height > img.height {
                img.height - top
            } else {
                given->Region_height as int
            }
        }),
{
    let i = img@;
    assert(r@.width == r.width && r@.height == r.height);
    let left: int = if given->x < img.width {
        given->x as int
    } else {
        img.width - 1
    };
    let top: int = if given->y < img.height {
        given->y as int
    } else {
        img.height - 1
    };
    lemma_painted(r@.width, r@.height, |a: int, b: int| i.at(left + a, top + b));
}

/// A border lies around the image in its own colour, as thick on every side. Within it, every pixel
/// of the image is laid over that colour.
#[verifier::spinoff_prover]
pub proof fn borders_lie_around(
    f: FilterView,
    img: Pixels,
    given: Given,
    r: Pixels,
    x: int,
    y: int,
)
    requires
        f is Border,
        f->thickness > 0,
        is_result(f, img, given, r),
        0 <= x < r.width,
        0 <= y < r.height,
    ensures
        r.width == img.width + 2 * f->thickness,
        r.height == img.height + 2 * f->thickness,
        ({
            let t = f->thickness as int;
            r@.at(x, y) == if t <= x < t + img.width && t <= y < t + img.height {
                blended(f->Border_color, img@.at(x - t, y - t))
            } else {
                f->Border_color
            }
        }),
{
    let i = img@;
    let t = f->thickness as nat;
    let c = f->Border_color;
    let under = plain(i.width + 2 * t, i.height + 2 * t, c);
    lemma_painted(i.width + 2 * t, i.height + 2 * t, |a: int, b: int| c);
    lemma_painted(
        under.width,
        under.height,
        |a: int, b: int|
            if crate::pixels::is_under(i, t as int, t as int, a, b) {
                blended(under.at(a, b), i.at(a - t, b - t))
            } else {
                under.at(a, b)
            },
    );
    assert(r@.width == r.width && r@.height == r.height);
    assert(r@ == laid_over(under, i, t as int, t as int));
    assert(under.at(x, y) == c);
}

/// A border without thickness, a cap that the image keeps to, a sharpening or clarity of no
/// strength and a preset leave an image as it is.
pub proof fn some_filters_change_nothing(f: FilterView, img: Pixels, given: Given, r: Pixels)
    requires
        is_result(f, img, given, r),
    ensures
        f is Border && f->thickness == 0 ==> r@ == img@,
        f is CapSize && img.width <= f->max_px && img.height <= f->max_px ==> r@ == img@,
        f is Sharpen && f->Sharpen_amount.near_zero_spec() ==> r@ == img@,
        f is MicroContrast && f->MicroContrast_amount.near_zero_spec() ==> r@ == img@,
        f is Preset ==> r@ == img@,
{
}

/// A scale, and a cap that an image exceeds, shrink or enlarge the image to the size that was
/// worked out, of at least one pixel each way; a cap goes no further than its number.
pub proof fn sizes_are_kept_to(f: FilterView, img: Pixels, given: Given, r: Pixels)
    requires
        f is Scale || f is CapSize && (img.width > f->max_px || img.height > f->max_px),
        may_apply(f, img, given),
        is_result(f, img, given, r),
    ensures
        given is Size,
        ({
            let bound_w: u32 = if f is CapSize && f->max_px < given->Size_width {
                f->max_px
            } else {
                given->Size_width
            };
            let bound_h: u32 = if f is CapSize && f->max_px < given->Size_height {
                f->max_px
            } else {
                given->Size_height
            };
            let w: u32 = if bound_w == 0 {
                1
            } else {
                bound_w
            };
            let h: u32 = if bound_h == 0 {
                1
            } else {
                bound_h
            };
            &&& (r.width, r.height, r.data@) == resized(img.width, img.height, img.data@, w, h)
            &&& 1 <= r.width <= w
            &&& 1 <= r.height <= h
        }),
{
}

/// A filter that needs nothing worked out has one result, whatever it is given.
pub proof fn what_is_not_needed_does_not_matter(
    f: FilterView,
    img: Pixels,
    a: Given,
    b: Given,
    r: Pixels,
)
    requires
        need_of(f, img.width, img.height) is Nothing,
    ensures
        is_result(f, img, a, r) == is_result(f, img, b, r),
{
}

/// What has to be worked out for each filter: a turn by another angle than quarters, or about a
/// place of its own, and a sharpening or clarity of some strength need the image; a crop its
/// region; a scale, and a cap that the image exceeds, its size; exposure and contrast a table;
/// curves a table each.
pub proof fn filters_ask_for_what_they_need(f: FilterView, width: u32, height: u32)
    ensures
        need_of(f, width, height) is Region <==> f is Crop,
        need_of(f, width, height) is Table <==> f is Exposure || f is Contrast,
        need_of(f, width, height) is Tables <==> f is Curves,
        need_of(f, width, height) is Size <==> f is Scale || f is CapSize && (width > f->max_px
            || height > f->max_px),
        need_of(f, width, height) is Image <==> {
            ||| f is Rotate && (f->center is Some || f->degrees as int % 90 != 0)
            ||| f is Sharpen && !f->Sharpen_amount.near_zero_spec()
            ||| f is MicroContrast && !f->MicroContrast_amount.near_zero_spec()
        },
{
}

/// The turn that brings an image upright undoes the turn its file tells of: files that tell of
/// opposite quarter turns are turned in opposite directions, one of a half turn by half a turn, and
/// others not.
pub proof fn upright_turns_are_opposite(v: u32)
    ensures
        upright_turn(Some(6)) == 90,
        upright_turn(Some(6)) + upright_turn(Some(8)) == 360,
        upright_turn(Some(3)) + upright_turn(Some(3)) == 360,
        v != 3 && v != 6 && v != 8 ==> upright_turn(Some(v)) == 0,
        upright_turn(None) == 0,
{
}

/// The middle of an image is as far from its left edge as from its right one, and from its top as
/// from its bottom, up to one pixel.
#[verifier::spinoff_prover]
pub proof fn the_middle_is_in_the_middle(img: Image, width: u32, height: u32, x: int, y: int)
    requires
        img.wf(),
        0 < width <= img.width,
        0 < height <= img.height,
        0 <= x < width,
        0 <= y < height,
    ensures
        middle_of(img, width, height).width == width,
        middle_of(img, width, height).height == height,
        ({
            let left = img.width as int / 2 - width as int / 2;
            let top = img.height as int / 2 - height as int / 2;
            &&& middle_of(img, width, height).at(x, y) == img.at(left + x, top + y)
            &&& 0 <= left
            &&& -1 <= (img.width - width - left) - left <= 1
            &&& 0 <= top
            &&& -1 <= (img.height - height - top) - top <= 1
        }),
{
    let left = img.width as int / 2 - width as int / 2;
    let top = img.height as int / 2 - height as int / 2;
    lemma_painted(width as nat, height as nat, |a: int, b: int| img.at(left + a, top + b));
}

/// An image exceeds a size when one of its sides does; it exceeds no size when there is none.
pub proof fn one_side_is_enough(img: Pixels, m: u32)
    ensures
        exceeds(img, Some(m)) <==> img.width > m || img.height > m,
        !exceeds(img, None),
{
}

/// The counts of a channel are counts of that channel: each pixel counts once, at its own value.
pub proof fn each_channel_counts_its_own(img: Image, i: int)
    requires
        0 <= i < img.pixels.len(),
    ensures
        reds(img).len() == img.pixels.len(),
        greens(img).len() == img.pixels.len(),
        blues(img).len() == img.pixels.len(),
        reds(img)[i] == img.pixels[i].r,
        greens(img)[i] == img.pixels[i].g,
        blues(img)[i] == img.pixels[i].b,
{
}

/// One more pixel counts once, at its own value, and changes no other count.
pub proof fn one_more_pixel_counts_once(s: Seq<u8>, v: u8, other: int)
    requires
        other != v,
    ensures
        tally(Seq::empty(), other) == 0,
        tally(s.push(v), v as int) == tally(s, v as int) + 1,
        tally(s.push(v), other) == tally(s, other),
{
    assert(s.push(v).drop_last() == s);
}

/// The peak of some counts is no smaller than any of them, and one of them, or one.
pub proof fn peaks_are_largest(counts: Seq<Seq<u32>>, m: u32, c: int, i: int)
    requires
        is_peak(counts, m),
        0 <= c < counts.len(),
        0 <= i < counts[c].len(),
    ensures
        1 <= m,
        counts[c][i] <= m,
        m > 1 ==> exists|d: int, j: int|
            0 <= d < counts.len() && 0 <= j < counts[d].len() && #[trigger] counts[d][j] == m,
{
}

/// Turning an image by quarters moves its pixels clockwise; by another angle it gives the image
/// that was worked out.
#[verifier::spinoff_prover]
pub proof fn turning_is_clockwise(img: Image, degrees: int, turned: Option<Pixels>, x: int, y: int)
    requires
        img.wf(),
        0 <= x < img.width,
        0 <= y < img.height,
    ensures
        degrees % 360 == 0 ==> rotated(img, degrees, turned) == img,
        degrees % 360 == 90 ==> rotated(img, degrees, turned).width == img.height && rotated(
            img,
            degrees,
            turned,
        ).height == img.width && rotated(img, degrees, turned).at(img.height - 1 - y, x) == img.at(
            x,
            y,
        ),
        degrees % 360 == 180 ==> rotated(img, degrees, turned).width == img.width && rotated(
            img,
            degrees,
            turned,
        ).at(img.width - 1 - x, img.height - 1 - y) == img.at(x, y),
        degrees % 360 == 270 ==> rotated(img, degrees, turned).width == img.height && rotated(
            img,
            degrees,
            turned,
        ).at(y, img.width - 1 - x) == img.at(x, y),
        degrees % 90 != 0 ==> (turned matches Some(t) ==> rotated(img, degrees, turned) == t@),
{
    lemma_painted(img.height, img.width, |a: int, b: int| img.at(b, img.height - 1 - a));
    lemma_painted(
        img.width,
        img.height,
        |a: int, b: int| img.at(img.width - 1 - a, img.height - 1 - b),
    );
    lemma_painted(img.height, img.width, |a: int, b: int| img.at(img.width - 1 - b, a));
}

/// A histogram counts, for each value, the pixels that have it: in red by their red, in green by
/// their green, in blue by their blue, and in brightness by their brightness.
pub proof fn histograms_count_pixels(h: ImageHistogram, img: Image, lumas: Seq<u8>, v: int)
    requires
        is_histogram(h, img, lumas),
        0 <= v < 256,
    ensures
        h.r@[v] == tally(Seq::new(img.pixels.len(), |i: int| img.pixels[i].r), v),
        h.g@[v] == tally(Seq::new(img.pixels.len(), |i: int| img.pixels[i].g), v),
        h.b@[v] == tally(Seq::new(img.pixels.len(), |i: int| img.pixels[i].b), v),
        h.luma@[v] == tally(lumas, v),
{
    assert(reds(img) == Seq::new(img.pixels.len(), |i: int| img.pixels[i].r));
    assert(greens(img) == Seq::new(img.pixels.len(), |i: int| img.pixels[i].g));
    assert(blues(img) == Seq::new(img.pixels.len(), |i: int| img.pixels[i].b));
}

} // verus!
