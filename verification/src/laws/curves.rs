//! Numbers, and the curves through points.
use crate::curve::{
    caught, dragged, dragging_after_removal, end_of, extremes_are_extreme, first_true,
    lemma_extremes_in_range, place_of, points_dragged, points_without, sorted_from, x_keys,
    CurvePlace,
};
use crate::filters::Point;
use crate::order::{comes_before, is_stable_order, lemma_all_listed};
use crate::scalar::{
    lemma_key_orders, lemma_magnitude_monotone, lemma_magnitude_nonnegative, magnitude_units,
    Scalar, SIGN_BITS,
};
use vstd::prelude::*;

verus! {

/// Numbers are ordered: none comes before itself, of two different values one comes before the
/// other, and the order carries over. What is no number stands in no order.
pub proof fn numbers_are_ordered(a: Scalar, b: Scalar, c: Scalar)
    ensures
        !a.lt_spec(a),
        !(a.lt_spec(b) && b.lt_spec(a)),
        a.lt_spec(b) && b.lt_spec(c) ==> a.lt_spec(c),
        !a.is_nan_spec() && !b.is_nan_spec() ==> a.lt_spec(b) || b.lt_spec(a) || a.eq_value(b),
        a.le_spec(b) <==> a.lt_spec(b) || a.eq_value(b),
        a.is_nan_spec() ==> !a.lt_spec(b) && !b.lt_spec(a) && !a.eq_value(b) && !a.le_spec(b),
        a.eq_value(b) ==> b.eq_value(a) && !a.lt_spec(b),
{
}

/// Zero is less than one half, which is less than one; a number below zero is the opposite of one
/// above; the two zeros are equal.
pub proof fn known_numbers_are_in_order(a: Scalar)
    requires
        a.bits < SIGN_BITS,
    ensures
        (Scalar { bits: 0 }).lt_spec(Scalar { bits: 0x3f00_0000 }),
        (Scalar { bits: 0x3f00_0000 }).lt_spec(Scalar { bits: 0x3f80_0000 }),
        (Scalar { bits: (a.bits + 0x8000_0000) as u32 }).units() == -a.units(),
        (Scalar { bits: 0 }).eq_value(Scalar { bits: 0x8000_0000 }),
        a.bits <= 0x7f80_0000 <==> !a.is_nan_spec(),
        2 * (Scalar { bits: 0x3f00_0000 }).units() == (Scalar { bits: 0x3f80_0000 }).units(),
{
    lemma_magnitude_monotone(0, 0x3f00_0000);
    lemma_magnitude_monotone(0x3f00_0000, 0x3f80_0000);
    lemma_magnitude_nonnegative(0x3f00_0000);
    assert(magnitude_units(0) == 0);
    assert(magnitude_units(0x3f80_0000) == 2 * magnitude_units(0x3f80_0000 - 0x80_0000));
}

/// The whole number by which numbers are sorted orders them as their values do.
pub proof fn keys_order_as_values(a: Scalar, b: Scalar)
    ensures
        a.key() < b.key() <==> a.units() < b.units(),
        a.key() == b.key() <==> a.units() == b.units(),
{
    lemma_key_orders(a, b);
}

/// A number is as good as zero, or as one, when it differs by less than a ten-thousandth.
pub proof fn near_is_within_a_ten_thousandth(a: Scalar)
    requires
        !a.is_nan_spec(),
    ensures
        ({
            let eps = (Scalar { bits: 0x38d1_b717 }).units();
            let one = (Scalar { bits: 0x3f80_0000 }).units();
            &&& a.near_zero_spec() <==> -eps < a.units() < eps
            &&& a.near_one_spec() <==> one - eps < a.units() < one + eps
            &&& a.below_epsilon_spec() <==> a.units() < eps
            &&& a.at_least_zero_spec() <==> a.units() >= 0
        }),
        (Scalar { bits: 0 }).near_zero_spec(),
        (Scalar { bits: 0x3f80_0000 }).near_one_spec(),
{
    lemma_magnitude_monotone(0, 0x38d1_b717);
    assert(magnitude_units(0) == 0);
}

/// A number that is kept between two others lies between them, and is itself where it already did.
pub proof fn clamping_keeps_between(a: Scalar, low: Scalar, high: Scalar)
    requires
        !a.is_nan_spec(),
        !low.is_nan_spec(),
        !high.is_nan_spec(),
        low.units() <= high.units(),
    ensures
        low.units() <= a.clamped_spec(low, high).units() <= high.units(),
        low.units() <= a.units() <= high.units() ==> a.clamped_spec(low, high) == a,
        a.units() < low.units() ==> a.clamped_spec(low, high) == low,
        a.units() > high.units() ==> a.clamped_spec(low, high) == high,
{
}

/// Sorting loses no point and adds none: every point is still there.
pub proof fn sorting_keeps_every_point(before: Seq<Point>, after: Seq<Point>, p: Point)
    requires
        sorted_from(before, after),
        before.len() <= usize::MAX,
    ensures
        after.len() == before.len(),
        after.contains(p) <==> before.contains(p),
{
    let order = choose|order: Seq<usize>| #[trigger]
        is_stable_order(order, x_keys(before)) && after == Seq::new(
            order.len(),
            |i: int| before[order[i] as int],
        );
    if after.contains(p) {
        let i = choose|i: int| 0 <= i < after.len() && after[i] == p;
        assert(before[order[i] as int] == p);
    }
    if before.contains(p) {
        let i = choose|i: int| 0 <= i < before.len() && before[i] == p;
        lemma_all_listed(order, x_keys(before), i as usize);
        let k = choose|k: int| 0 <= k < order.len() && order[k] == i as usize;
        assert(after[k] == p);
    }
}

/// Points at one place stay in their order when they are sorted.
pub proof fn sorting_keeps_equals_in_order(
    before: Seq<Point>,
    after: Seq<Point>,
    order: Seq<usize>,
    i: int,
    j: int,
)
    requires
        is_stable_order(order, x_keys(before)),
        after == Seq::new(order.len(), |k: int| before[order[k] as int]),
        0 <= i < j < after.len(),
        after[i].x.key() == after[j].x.key(),
    ensures
        order[i] < order[j],
{
    assert(comes_before(x_keys(before), order[i], order[j]));
}

/// The point that can be caught is the nearest one, and lies no further than thirteen from the
/// pointer. Where all lie further off, none can be caught.
pub proof fn the_nearest_point_is_caught(distances: Seq<Scalar>, k: int)
    requires
        distances.len() <= usize::MAX,
        0 <= k < distances.len(),
        forall|i: int| 0 <= i < distances.len() ==> !(#[trigger] distances[i]).is_nan_spec(),
    ensures
        caught(distances) matches Some(i) ==> i < distances.len() && distances[i as int].units()
            <= distances[k].units() && distances[i as int].units() <= (Scalar {
            bits: 0x4150_0000,
        }).units(),
        caught(distances) is None ==> distances[k].units() > (Scalar { bits: 0x4150_0000 }).units(),
        caught(Seq::empty()) is None,
{
    let n = distances.len() as int;
    lemma_extremes_in_range(distances, n);
    extremes_are_extreme(distances, n);
}

/// The first point of a curve stays at its left end and the last one at its right end; others lie
/// between their neighbours. Every point stays between bottom and top.
pub proof fn dragged_points_stay_on_the_curve(
    i: int,
    n: int,
    at: Point,
    low: Scalar,
    high: Scalar,
)
    requires
        0 <= i < n,
        !at.x.is_nan_spec(),
        !at.y.is_nan_spec(),
        !low.is_nan_spec(),
        !high.is_nan_spec(),
        low.units() <= high.units(),
    ensures
        i == 0 ==> dragged(i, n, at, low, high).x == (Scalar { bits: 0 }),
        i > 0 && i == n - 1 ==> dragged(i, n, at, low, high).x == (Scalar { bits: 0x3f80_0000 }),
        0 < i < n - 1 ==> low.units() <= dragged(i, n, at, low, high).x.units() <= high.units(),
        0 < i < n - 1 && low.units() <= at.x.units() <= high.units() ==> dragged(
            i,
            n,
            at,
            low,
            high,
        ).x == at.x,
        0 <= dragged(i, n, at, low, high).y.units() <= (Scalar { bits: 0x3f80_0000 }).units(),
        0 <= at.y.units() <= (Scalar { bits: 0x3f80_0000 }).units() ==> dragged(
            i,
            n,
            at,
            low,
            high,
        ).y == at.y,
        end_of(i, n) is Some <==> i == 0 || i == n - 1,
{
    lemma_magnitude_monotone(0, 0x3f80_0000);
    lemma_magnitude_nonnegative(0x3f80_0000);
    assert(magnitude_units(0) == 0);
}

/// The point that was added is held: the first place that is marked, or the first of all where none
/// is.
pub proof fn the_first_mark_counts(flags: Seq<bool>)
    ensures
        flags.contains(true) ==> 0 <= first_true(flags) < flags.len() && flags[first_true(flags)]
            && forall|i: int| 0 <= i < first_true(flags) ==> !(#[trigger] flags[i]),
        !flags.contains(true) ==> first_true(flags) == 0,
    decreases flags.len(),
{
    if flags.contains(true) && !flags[0] {
        let rest = flags.drop_first();
        let k = choose|k: int| 0 <= k < flags.len() && flags[k];
        assert(rest[k - 1]);
        assert(rest.contains(true));
        the_first_mark_counts(rest);
        assert(flags[first_true(flags)] == rest[first_true(rest)]);
        assert forall|i: int| 0 <= i < first_true(flags) implies !(#[trigger] flags[i]) by {
            if i > 0 {
                assert(rest[i - 1] == flags[i]);
            }
        }
    }
}

/// When the point that is dragged is removed, none is dragged any more; when an earlier one is, the
/// dragged one has moved down by one.
pub proof fn removal_moves_the_drag(d: usize, removed: usize)
    ensures
        dragging_after_removal(None, removed) is None,
        d == removed ==> dragging_after_removal(Some(d), removed) is None,
        d > removed ==> dragging_after_removal(Some(d), removed) == Some((d - 1) as usize),
        d < removed ==> dragging_after_removal(Some(d), removed) == Some(d),
{
}

/// Left of the first point a curve is as high as there, and right of the last one as high as there.
/// A curve of one point is flat, and one without points is nowhere.
pub proof fn curves_are_flat_beyond_their_ends(points: Seq<Point>, x: Scalar)
    requires
        points.len() <= usize::MAX,
        !x.is_nan_spec(),
        forall|k: int| 0 <= k < points.len() ==> !(#[trigger] points[k]).x.is_nan_spec(),
    ensures
        points.len() == 0 ==> place_of(points, x) is Nowhere,
        points.len() == 1 ==> place_of(points, x) == CurvePlace::At(0),
        points.len() > 0 && x.units() <= points[0].x.units() ==> place_of(points, x)
            == CurvePlace::At(0),
        points.len() > 1 && x.units() > points[0].x.units() && x.units() >= points.last().x.units()
            ==> place_of(points, x) == CurvePlace::At((points.len() - 1) as usize),
        points.len() > 1 && points[0].x.units() < x.units() < points.last().x.units() ==> place_of(
            points,
            x,
        ) is After,
{
}

/// Removing a point takes that one away and leaves the others in order; dragging one moves that one
/// alone.
pub proof fn one_point_at_a_time(
    points: Seq<Point>,
    i: usize,
    k: int,
    at: Point,
    low: Scalar,
    high: Scalar,
)
    requires
        i < points.len(),
        0 <= k < points.len(),
        k != i,
    ensures
        points_without(points, None) == points,
        points_without(points, Some(i)).len() == points.len() - 1,
        k < i ==> points_without(points, Some(i))[k] == points[k],
        k > i ==> points_without(points, Some(i))[k - 1] == points[k],
        points_dragged(points, None, at, low, high) == points,
        points_dragged(points, Some(i), at, low, high).len() == points.len(),
        points_dragged(points, Some(i), at, low, high)[k] == points[k],
        points_dragged(points, Some(i), at, low, high)[i as int] == dragged(
            i as int,
            points.len() as int,
            at,
            low,
            high,
        ),
{
}

} // verus!
