//! Filters, and stacks of them.
use crate::filters::{
    add_list, composed, description_of, edited, kind_name, may_stack, merge_arithmetic, numbers_of,
    rotation_total, same_center, stack_description, stacked, Arithmetic, Channel, FilterEdit,
    FilterView, Point, Rgba, RotateFill,
};
use crate::scalar::{Scalar, HALF_BITS};
use vstd::prelude::*;

verus! {

/// A crop, scale, border or set of curves takes the place of the one before it: the last one wins.
/// One that changes nothing takes the one before it away.
pub proof fn the_last_setting_wins(stack: Seq<FilterView>, incoming: FilterView, combined: Scalar)
    requires
        stack.len() > 0,
    ensures
        stack.last() is Crop && incoming is Crop ==> stacked(stack, incoming, combined) == if (
        incoming->x.below_epsilon_spec() && incoming->y.below_epsilon_spec()
            && incoming->width.near_one_spec() && incoming->height.near_one_spec()) {
            stack.drop_last()
        } else {
            stack.drop_last().push(incoming)
        },
        stack.last() is Scale && incoming is Scale ==> stacked(stack, incoming, combined) == if (
        incoming->Scale_factor.near_one_spec()) {
            stack.drop_last()
        } else {
            stack.drop_last().push(incoming)
        },
        stack.last() is Border && incoming is Border ==> stacked(stack, incoming, combined) == if (
        incoming->thickness == 0) {
            stack.drop_last()
        } else {
            stack.drop_last().push(incoming)
        },
        stack.last() is Curves && incoming is Curves ==> stacked(stack, incoming, combined) == if (
        incoming->Curves_r.len() + incoming->Curves_g.len() + incoming->Curves_b.len() == 0) {
            stack.drop_last()
        } else {
            stack.drop_last().push(incoming)
        },
{
}

/// Two exposures, sharpenings, clarities or contrasts become one, of the amount that was worked out
/// for both; they vanish where that amount changes nothing.
pub proof fn two_amounts_become_one(stack: Seq<FilterView>, incoming: FilterView, combined: Scalar)
    requires
        stack.len() > 0,
    ensures
        stack.last() is Exposure && incoming is Exposure ==> stacked(stack, incoming, combined)
            == if combined.near_zero_spec() {
            stack.drop_last()
        } else {
            stack.drop_last().push(FilterView::Exposure { stops: combined })
        },
        stack.last() is Sharpen && incoming is Sharpen ==> stacked(stack, incoming, combined)
            == if combined.near_zero_spec() {
            stack.drop_last()
        } else {
            stack.drop_last().push(FilterView::Sharpen { amount: combined })
        },
        stack.last() is MicroContrast && incoming is MicroContrast ==> stacked(
            stack,
            incoming,
            combined,
        ) == if combined.near_zero_spec() {
            stack.drop_last()
        } else {
            stack.drop_last().push(FilterView::MicroContrast { amount: combined })
        },
        stack.last() is Contrast && incoming is Contrast ==> stacked(stack, incoming, combined)
            == if combined.near_one_spec() {
            stack.drop_last()
        } else {
            stack.drop_last().push(FilterView::Contrast { factor: combined })
        },
{
}

/// What is worked out for two filters is the sum of their stops or amounts, or the product of their
/// factors, of the earlier one and then of the later one. Filters of other kinds need no
/// arithmetic.
pub proof fn amounts_add_and_factors_multiply(last: FilterView, incoming: FilterView)
    ensures
        last is Exposure && incoming is Exposure ==> merge_arithmetic(last, incoming)
            == (Arithmetic::Sum { a: last->stops, b: incoming->stops }),
        last is Sharpen && incoming is Sharpen ==> merge_arithmetic(last, incoming)
            == (Arithmetic::Sum { a: last->Sharpen_amount, b: incoming->Sharpen_amount }),
        last is MicroContrast && incoming is MicroContrast ==> merge_arithmetic(last, incoming)
            == (Arithmetic::Sum { a: last->MicroContrast_amount, b: incoming->MicroContrast_amount }),
        last is Contrast && incoming is Contrast ==> merge_arithmetic(last, incoming)
            == (Arithmetic::Product { a: last->Contrast_factor, b: incoming->Contrast_factor }),
        merge_arithmetic(last, incoming) is Nothing <==> !(last is Exposure && incoming is Exposure)
            && !(last is Sharpen && incoming is Sharpen) && !(last is MicroContrast && incoming
            is MicroContrast) && !(last is Contrast && incoming is Contrast),
{
}

/// Of two caps the tighter one holds.
pub proof fn the_tighter_cap_holds(stack: Seq<FilterView>, incoming: FilterView, combined: Scalar)
    requires
        stack.len() > 0,
        stack.last() is CapSize,
        incoming is CapSize,
    ensures
        stacked(stack, incoming, combined).len() == stack.len(),
        stacked(stack, incoming, combined).drop_last() == stack.drop_last(),
        ({
            let kept = stacked(stack, incoming, combined).last();
            &&& kept is CapSize
            &&& kept->max_px <= stack.last()->max_px
            &&& kept->max_px <= incoming->max_px
            &&& kept->max_px == stack.last()->max_px || kept->max_px == incoming->max_px
        }),
{
}

/// Two turns about one place become the one turn that does both, filled as the later one asks.
/// Turns that make whole circles vanish.
pub proof fn two_turns_become_one(stack: Seq<FilterView>, incoming: FilterView, combined: Scalar)
    requires
        stack.len() > 0,
        stack.last() is Rotate,
        incoming is Rotate,
        same_center(stack.last()->center, incoming->center),
    ensures
        ({
            let sum = stack.last()->degrees + incoming->degrees;
            let after = stacked(stack, incoming, combined);
            &&& sum % 360 == 0 ==> after == stack.drop_last()
            &&& sum % 360 != 0 ==> {
                &&& after.len() == stack.len()
                &&& after.drop_last() == stack.drop_last()
                &&& after.last() is Rotate
                &&& 0 < after.last()->degrees < 360
                &&& (after.last()->degrees - sum) % 360 == 0
                &&& after.last()->center == incoming->center
                &&& after.last()->fill == incoming->fill
            }
        }),
{
    let sum = stack.last()->degrees + incoming->degrees;
    assert((sum % 360 - sum) % 360 == 0);
}

/// A turn about another place takes the place of the turn before it.
pub proof fn a_turn_elsewhere_wins(stack: Seq<FilterView>, incoming: FilterView, combined: Scalar)
    requires
        stack.len() > 0,
        stack.last() is Rotate,
        incoming is Rotate,
        !same_center(stack.last()->center, incoming->center),
    ensures
        incoming->degrees as int % 360 != 0 ==> stacked(stack, incoming, combined)
            == stack.drop_last().push(incoming),
        incoming->degrees as int % 360 == 0 ==> stacked(stack, incoming, combined)
            == stack.drop_last(),
{
}

/// Two turns are about one place when neither names one, or both name the same coordinates.
pub proof fn places_are_compared_by_coordinates(a: Point, b: Point)
    ensures
        same_center(None, None),
        !same_center(Some(a), None),
        !same_center(None, Some(a)),
        same_center(Some(a), Some(b)) <==> !a.x.is_nan_spec() && !a.y.is_nan_spec()
            && !b.x.is_nan_spec() && !b.y.is_nan_spec() && a.x.units() == b.x.units()
            && a.y.units() == b.y.units(),
{
}

/// A flip over the same axis as the last takes the last away.
pub proof fn a_flip_takes_a_flip_away(stack: Seq<FilterView>, flip: FilterView, combined: Scalar)
    requires
        flip is FlipHorizontal || flip is FlipVertical,
        stack.len() > 0,
        stack.last() == flip,
    ensures
        stacked(stack, flip, combined) == stack.drop_last(),
{
}

/// Applying a filter changes at most the end of the stack: what stood before the last filter stays.
pub proof fn earlier_filters_stay(stack: Seq<FilterView>, incoming: FilterView, combined: Scalar)
    ensures
        stack.len() <= stacked(stack, incoming, combined).len() + 1,
        stacked(stack, incoming, combined).len() <= stack.len() + 1,
        forall|i: int|
            0 <= i < stack.len() - 1 ==> #[trigger] stacked(stack, incoming, combined)[i]
                == stack[i],
        stack.len() == 0 ==> stacked(stack, incoming, combined) == seq![incoming],
{
}

/// Filters are of one kind exactly when they do the same thing, whatever their settings.
pub proof fn kinds_tell_filters_apart(f: FilterView, g: FilterView)
    ensures
        f.kind() == g.kind() <==> {
            ||| f is Rotate && g is Rotate
            ||| f is FlipHorizontal && g is FlipHorizontal
            ||| f is FlipVertical && g is FlipVertical
            ||| f is Crop && g is Crop
            ||| f is Scale && g is Scale
            ||| f is Exposure && g is Exposure
            ||| f is Contrast && g is Contrast
            ||| f is CapSize && g is CapSize
            ||| f is Border && g is Border
            ||| f is Sharpen && g is Sharpen
            ||| f is MicroContrast && g is MicroContrast
            ||| f is Curves && g is Curves
            ||| f is Preset && g is Preset
        },
{
}

/// A gallery's filters stand around those of the photo: its earlier ones first, its later ones
/// last, each in its own order.
pub proof fn photo_filters_stand_between(
    photo: Seq<FilterView>,
    pre: Seq<FilterView>,
    post: Seq<FilterView>,
)
    ensures
        composed(photo, None) == photo,
        composed(photo, Some((pre, post))).len() == pre.len() + photo.len() + post.len(),
        forall|i: int|
            0 <= i < pre.len() ==> #[trigger] composed(photo, Some((pre, post)))[i] == pre[i],
        forall|i: int|
            0 <= i < photo.len() ==> composed(photo, Some((pre, post)))[pre.len() + i]
                == #[trigger] photo[i],
        forall|i: int|
            0 <= i < post.len() ==> composed(photo, Some((pre, post)))[pre.len() + photo.len() + i]
                == #[trigger] post[i],
{
}

/// An edit of a crop sets one of its four numbers and leaves the other three.
pub proof fn edits_of_a_crop(f: FilterView, v: Scalar)
    requires
        f is Crop,
    ensures
        edited(f, FilterEdit::CropX(v)) matches Some(g) && g is Crop && g->x == v && g->y == f->y
            && g->width == f->width && g->height == f->height,
        edited(f, FilterEdit::CropY(v)) matches Some(g) && g is Crop && g->x == f->x && g->y == v
            && g->width == f->width && g->height == f->height,
        edited(f, FilterEdit::CropWidth(v)) matches Some(g) && g is Crop && g->x == f->x && g->y
            == f->y && g->width == v && g->height == f->height,
        edited(f, FilterEdit::CropHeight(v)) matches Some(g) && g is Crop && g->x == f->x && g->y
            == f->y && g->width == f->width && g->height == v,
{
}

/// An edit of a turn sets its angle, its filling or its place, and leaves the rest.
pub proof fn edits_of_a_turn(f: FilterView, degrees: i32, color: Rgba, v: Scalar)
    requires
        f is Rotate,
    ensures
        edited(f, FilterEdit::Degrees(degrees)) matches Some(g) && g is Rotate && g->degrees
            == degrees && g->center == f->center && g->fill == f->fill,
        edited(f, FilterEdit::FillTransparent) matches Some(g) && g is Rotate && g->degrees
            == f->degrees && g->center == f->center && g->fill is Transparent,
        edited(f, FilterEdit::FillCrop) matches Some(g) && g is Rotate && g->degrees == f->degrees
            && g->center == f->center && g->fill is Crop,
        f->fill is Color ==> edited(f, FilterEdit::FillColor) is None,
        !(f->fill is Color) ==> (edited(f, FilterEdit::FillColor) matches Some(g) && g is Rotate
            && g->degrees == f->degrees && g->center == f->center && g->fill == RotateFill::Color(
            Rgba { r: 0, g: 0, b: 0, a: 255 },
        )),
        f->fill is Color ==> (edited(f, FilterEdit::SetFillColor(color)) matches Some(g) && g
            is Rotate && g->degrees == f->degrees && g->center == f->center && g->fill
            == RotateFill::Color(color)),
        !(f->fill is Color) ==> edited(f, FilterEdit::SetFillColor(color)) is None,
        edited(f, FilterEdit::CustomCenter(false)) matches Some(g) && g is Rotate && g->degrees
            == f->degrees && g->center is None && g->fill == f->fill,
        edited(f, FilterEdit::CustomCenter(true)) matches Some(g) && g is Rotate && g->degrees
            == f->degrees && g->center == Some(
            Point { x: Scalar { bits: HALF_BITS }, y: Scalar { bits: HALF_BITS } },
        ) && g->fill == f->fill,
        f->center matches Some(c) ==> (edited(f, FilterEdit::CenterX(v)) matches Some(g) && g
            is Rotate && g->degrees == f->degrees && g->fill == f->fill && g->center == Some(
            Point { x: v, y: c.y },
        )),
        f->center matches Some(c) ==> (edited(f, FilterEdit::CenterY(v)) matches Some(g) && g
            is Rotate && g->degrees == f->degrees && g->fill == f->fill && g->center == Some(
            Point { x: c.x, y: v },
        )),
        f->center is None ==> edited(f, FilterEdit::CenterX(v)) is None && edited(
            f,
            FilterEdit::CenterY(v),
        ) is None,
{
}

/// An edit of a filter with a number or a colour of its own sets that and nothing else.
pub proof fn edits_of_an_amount(f: FilterView, v: Scalar, n: u32, color: Rgba)
    ensures
        f is Scale ==> edited(f, FilterEdit::Factor(v)) == Some(FilterView::Scale { factor: v }),
        f is Contrast ==> edited(f, FilterEdit::Factor(v)) == Some(
            FilterView::Contrast { factor: v },
        ),
        f is Exposure ==> edited(f, FilterEdit::Stops(v)) == Some(
            FilterView::Exposure { stops: v },
        ),
        f is Sharpen ==> edited(f, FilterEdit::Amount(v)) == Some(
            FilterView::Sharpen { amount: v },
        ),
        f is MicroContrast ==> edited(f, FilterEdit::Amount(v)) == Some(
            FilterView::MicroContrast { amount: v },
        ),
        f is CapSize ==> edited(f, FilterEdit::MaxPx(n)) == Some(FilterView::CapSize { max_px: n }),
        f is Border ==> edited(f, FilterEdit::Thickness(n)) == Some(
            FilterView::Border { thickness: n, color: f->Border_color },
        ),
        f is Border ==> edited(f, FilterEdit::BorderColor(color)) == Some(
            FilterView::Border { thickness: f->thickness, color },
        ),
        !(f is Scale || f is Contrast) ==> edited(f, FilterEdit::Factor(v)) is None,
        !(f is Sharpen || f is MicroContrast) ==> edited(f, FilterEdit::Amount(v)) is None,
        !(f is Exposure) ==> edited(f, FilterEdit::Stops(v)) is None,
        !(f is CapSize) ==> edited(f, FilterEdit::MaxPx(n)) is None,
        !(f is Border) ==> edited(f, FilterEdit::Thickness(n)) is None && edited(
            f,
            FilterEdit::BorderColor(color),
        ) is None,
{
}

/// An edit of a set of curves sets the points of one channel and leaves the other two.
pub proof fn edits_of_curves(f: FilterView, points: Vec<Point>)
    requires
        f is Curves,
    ensures
        edited(f, FilterEdit::Curve { channel: Channel::Red, points }) == Some(
            FilterView::Curves { r: points@, g: f->Curves_g, b: f->Curves_b },
        ),
        edited(f, FilterEdit::Curve { channel: Channel::Green, points }) == Some(
            FilterView::Curves { r: f->Curves_r, g: points@, b: f->Curves_b },
        ),
        edited(f, FilterEdit::Curve { channel: Channel::Blue, points }) == Some(
            FilterView::Curves { r: f->Curves_r, g: f->Curves_g, b: points@ },
        ),
{
}

/// Of two edits of one setting the later one counts, and edits of different settings of a crop can
/// be made in either order.
pub proof fn the_later_edit_counts(f: FilterView, a: Scalar, b: Scalar)
    requires
        f is Crop,
    ensures
        edited(edited(f, FilterEdit::CropX(a))->0, FilterEdit::CropX(b)) == edited(
            f,
            FilterEdit::CropX(b),
        ),
        edited(edited(f, FilterEdit::CropX(a))->0, FilterEdit::CropY(b)) == edited(
            edited(f, FilterEdit::CropY(b))->0,
            FilterEdit::CropX(a),
        ),
        edited(edited(f, FilterEdit::CropWidth(a))->0, FilterEdit::CropHeight(b)) == edited(
            edited(f, FilterEdit::CropHeight(b))->0,
            FilterEdit::CropWidth(a),
        ),
{
}

/// Every filter that can be added is listed under the name it bears once it is there, all of them
/// are of different kinds, and only presets are not listed.
pub proof fn filters_are_listed_by_their_names(i: int, j: int)
    requires
        0 <= i < add_list().len(),
        0 <= j < add_list().len(),
    ensures
        add_list()[i].0 == kind_name(add_list()[i].1),
        add_list()[i].1.kind() == add_list()[j].1.kind() ==> i == j,
        !(add_list()[i].1 is Preset),
        add_list().len() == 12,
{
}

/// A stack is described filter by filter, in order, with a comma between them.
pub proof fn stacks_are_described_in_order(
    stack: Seq<FilterView>,
    f: FilterView,
    numbers: Seq<Seq<Seq<char>>>,
    n: Seq<Seq<char>>,
)
    requires
        stack.len() == numbers.len(),
    ensures
        stack_description(seq![f], seq![n]) == description_of(f, n),
        stack.len() > 0 ==> stack_description(stack.push(f), numbers.push(n)) == stack_description(
            stack,
            numbers,
        ) + ", "@ + description_of(f, n),
{
    let more = stack.push(f);
    let all = Seq::new(more.len(), |i: int| description_of(more[i], numbers.push(n)[i]));
    assert(all.drop_last() == Seq::new(stack.len(), |i: int| description_of(stack[i], numbers[i])));
    assert(all.last() == description_of(f, n));
}

/// A filter can be applied to every stack, but for a preset after a preset.
pub proof fn presets_do_not_follow_presets(stack: Seq<FilterView>, incoming: FilterView)
    ensures
        may_stack(stack, incoming) <==> !(incoming is Preset && stack.len() > 0 && stack.last()
            is Preset),
{
}

/// The numbers that a description writes: places and parts of the image in per cent, and amounts
/// with two decimals.
pub proof fn parts_are_written_in_percent(f: FilterView)
    ensures
        f is Crop ==> numbers_of(f).len() == 4 && numbers_of(f)[0].value == f->width && numbers_of(
            f,
        )[1].value == f->height && numbers_of(f)[2].value == f->x && numbers_of(f)[3].value == f->y
            && forall|i: int| 0 <= i < 4 ==> (#[trigger] numbers_of(f)[i]).percent,
        f is Rotate ==> (f->center matches Some(c) ==> numbers_of(f).len() == 2 && numbers_of(
            f,
        )[0].value == c.x && numbers_of(f)[1].value == c.y && numbers_of(f)[0].percent
            && numbers_of(f)[1].percent),
        f is Rotate && f->center is None ==> numbers_of(f).len() == 0,
        f is Scale ==> numbers_of(f).len() == 1 && numbers_of(f)[0].value == f->Scale_factor
            && numbers_of(f)[0].percent,
        f is Exposure ==> numbers_of(f).len() == 1 && numbers_of(f)[0].value == f->stops
            && !numbers_of(f)[0].percent,
        f is Contrast ==> numbers_of(f).len() == 1 && numbers_of(f)[0].value == f->Contrast_factor
            && !numbers_of(f)[0].percent,
        f is Sharpen ==> numbers_of(f).len() == 1 && numbers_of(f)[0].value == f->Sharpen_amount
            && !numbers_of(f)[0].percent,
        f is MicroContrast ==> numbers_of(f).len() == 1 && numbers_of(f)[0].value
            == f->MicroContrast_amount && !numbers_of(f)[0].percent,
{
}

/// A filter that is added begins with no turn, the whole image, a factor of one, no stops or
/// straight curves; sharpening, clarity, a cap and a border begin with a setting that shows.
pub proof fn added_filters_begin_gently(i: int)
    requires
        0 <= i < add_list().len(),
    ensures
        ({
            let f = add_list()[i].1;
            &&& f is Rotate ==> f->degrees == 0 && f->center is None && f->fill is Transparent
            &&& f is Crop ==> f->x.bits == 0 && f->y.bits == 0 && f->width.bits == 0x3f80_0000
                && f->height.bits == 0x3f80_0000
            &&& f is Scale ==> f->Scale_factor.bits == 0x3f80_0000
            &&& f is Exposure ==> f->stops.bits == 0
            &&& f is Contrast ==> f->Contrast_factor.bits == 0x3f80_0000
            &&& f is Sharpen ==> f->Sharpen_amount.bits == 0x3f80_0000
            &&& f is MicroContrast ==> f->MicroContrast_amount.bits == 0x3f00_0000
            &&& f is CapSize ==> f->max_px == 1024
            &&& f is Border ==> f->thickness == 20 && f->Border_color == (Rgba {
                r: 255,
                g: 255,
                b: 255,
                a: 255,
            })
            &&& f is Curves ==> f->Curves_r == f->Curves_g && f->Curves_g == f->Curves_b
                && f->Curves_r.len() == 2 && f->Curves_r[0].x == f->Curves_r[0].y
                && f->Curves_r[0].x.bits == 0 && f->Curves_r[1].x == f->Curves_r[1].y
                && f->Curves_r[1].x.bits == 0x3f80_0000
        }),
{
}

/// The net turn of a stack is the sum of its turns.
pub proof fn turns_are_summed(stack: Seq<FilterView>, f: FilterView)
    ensures
        rotation_total(Seq::empty()) == 0,
        f is Rotate ==> rotation_total(stack.push(f)) == rotation_total(stack) + f->degrees,
        !(f is Rotate) ==> rotation_total(stack.push(f)) == rotation_total(stack),
{
    assert(stack.push(f).drop_last() == stack);
}

} // verus!
