//! Editing the points of a tone curve.
use crate::filters::Point;
use crate::order::{is_stable_order, stable_order};
use crate::scalar::{Scalar, ONE_BITS};
use vstd::prelude::*;

verus! {

/// How far from a point, in pixels, it can still be caught.
pub const SNAP_RADIUS_BITS: u32 = 0x4150_0000;

/// The point that is being dragged.
#[derive(Debug, Clone, Copy, PartialEq, Eq, Structural)]
pub struct EditorMemory {
    pub dragging: Option<usize>,
}

impl Default for EditorMemory {
    fn default() -> (m: Self)
        ensures
            m.dragging is None,
    {
        EditorMemory { dragging: None }
    }
}

/// The numbers by which points are ordered.
pub open spec fn x_keys(points: Seq<Point>) -> Seq<i64> {
    Seq::new(points.len(), |i: int| points[i].x.key() as i64)
}

/// `after` holds the points of `before` from left to right, those above each other in their order.
pub open spec fn sorted_from(before: Seq<Point>, after: Seq<Point>) -> bool {
    exists|order: Seq<usize>| #[trigger]
        is_stable_order(order, x_keys(before)) && after == Seq::new(
            order.len(),
            |i: int| before[order[i] as int],
        )
}

/// Puts points in order from left to right.
pub fn sort_points(points: &mut Vec<Point>)
    ensures
        sorted_from(old(points)@, final(points)@),
        final(points)@.len() == old(points)@.len(),
{
    let ghost before = points@;
    let mut keys: Vec<i64> = Vec::new();
    let mut i: usize = 0;
    while i < points.len()
        invariant
            i <= points@.len(),
            *points == *old(points),
            keys@.len() == i,
            forall|k: int| 0 <= k < i ==> keys@[k] == points@[k].x.key(),
        decreases points@.len() - i,
    {
        keys.push(points[i].x.order_key());
        i += 1;
    }
    assert(keys@ =~= x_keys(before));
    let order = stable_order(&keys);
    let mut sorted: Vec<Point> = Vec::new();
    let mut j: usize = 0;
    while j < order.len()
        invariant
            j <= order@.len(),
            *points == *old(points),
            before == points@,
            order@.len() == before.len(),
            forall|k: int| 0 <= k < order@.len() ==> #[trigger] order@[k] < before.len(),
            sorted@.len() == j,
            forall|k: int| 0 <= k < j ==> sorted@[k] == before[order@[k] as int],
        decreases order@.len() - j,
    {
        sorted.push(points[order[j]]);
        j += 1;
    }
    assert(sorted@ =~= Seq::new(order@.len(), |k: int| before[order@[k] as int]));
    *points = sorted;
}

/// Sorted points lie from left to right.
pub proof fn sorted_points_rise(before: Seq<Point>, after: Seq<Point>)
    requires
        sorted_from(before, after),
    ensures
        after.len() == before.len(),
        rise(after),
{
    let order = choose|order: Seq<usize>| #[trigger]
        is_stable_order(order, x_keys(before)) && after == Seq::new(
            order.len(),
            |i: int| before[order[i] as int],
        );
    assert forall|i: int, j: int| 0 <= i < j < after.len() implies (#[trigger] after[i]).x.units()
        <= (#[trigger] after[j]).x.units() by {
        assert(crate::order::comes_before(x_keys(before), order[i], order[j]));
        crate::scalar::lemma_key_orders(after[i].x, after[j].x);
    }
}

/// The first place of the smallest among the first `n` numbers.
pub open spec fn first_smallest(values: Seq<Scalar>, n: int) -> int
    decreases n,
{
    if n <= 1 {
        0
    } else {
        let before = first_smallest(values, n - 1);
        if values[n - 1].lt_spec(values[before]) {
            n - 1
        } else {
            before
        }
    }
}

/// The last place of the largest among the first `n` numbers.
pub open spec fn last_largest(values: Seq<Scalar>, n: int) -> int
    decreases n,
{
    if n <= 1 {
        0
    } else {
        let before = last_largest(values, n - 1);
        if values[n - 1].lt_spec(values[before]) {
            before
        } else {
            n - 1
        }
    }
}

pub proof fn lemma_extremes_in_range(values: Seq<Scalar>, n: int)
    requires
        1 <= n,
    ensures
        0 <= first_smallest(values, n) < n,
        0 <= last_largest(values, n) < n,
    decreases n,
{
    if n > 1 {
        lemma_extremes_in_range(values, n - 1);
    }
}

/// The first place of the smallest number. What is no number is never smaller.
pub fn smallest(values: &Vec<Scalar>) -> (r: usize)
    requires
        values@.len() > 0,
    ensures
        r == first_smallest(values@, values@.len() as int),
        r < values@.len(),
{
    let mut best: usize = 0;
    let mut i: usize = 1;
    while i < values.len()
        invariant
            1 <= i <= values@.len(),
            best == first_smallest(values@, i as int),
            best < i,
        decreases values@.len() - i,
    {
        if values[i].lt(values[best]) {
            best = i;
        }
        i += 1;
    }
    best
}

/// The last place of the largest number. What is no number is never smaller.
pub fn largest(values: &Vec<Scalar>) -> (r: usize)
    requires
        values@.len() > 0,
    ensures
        r == last_largest(values@, values@.len() as int),
        r < values@.len(),
{
    let mut best: usize = 0;
    let mut i: usize = 1;
    while i < values.len()
        invariant
            1 <= i <= values@.len(),
            best == last_largest(values@, i as int),
            best < i,
        decreases values@.len() - i,
    {
        if !values[i].lt(values[best]) {
            best = i;
        }
        i += 1;
    }
    best
}

/// Among numbers, none is smaller than the smallest, and none before it is as small; none is larger
/// than the largest, and none after it is as large.
pub proof fn extremes_are_extreme(values: Seq<Scalar>, n: int)
    requires
        1 <= n <= values.len(),
        forall|i: int| 0 <= i < n ==> !(#[trigger] values[i]).is_nan_spec(),
    ensures
        forall|i: int|
            0 <= i < n ==> values[first_smallest(values, n)].units() <= (
            #[trigger] values[i]).units(),
        forall|i: int|
            0 <= i < first_smallest(values, n) ==> values[first_smallest(values, n)].units() < (
            #[trigger] values[i]).units(),
        forall|i: int|
            0 <= i < n ==> (#[trigger] values[i]).units() <= values[last_largest(
                values,
                n,
            )].units(),
        forall|i: int|
            last_largest(values, n) < i < n ==> (#[trigger] values[i]).units()
                < values[last_largest(values, n)].units(),
    decreases n,
{
    lemma_extremes_in_range(values, n);
    if n > 1 {
        lemma_extremes_in_range(values, n - 1);
        extremes_are_extreme(values, n - 1);
    }
}

/// The point that can be caught: the nearest, if it is near enough.
pub open spec fn caught(distances: Seq<Scalar>) -> Option<usize> {
    let i = first_smallest(distances, distances.len() as int);
    if distances.len() == 0 || distances[i].is_nan_spec() || (Scalar {
        bits: SNAP_RADIUS_BITS,
    }).lt_spec(distances[i]) {
        None
    } else {
        Some(i as usize)
    }
}

/// The point that can be caught, given how far each lies from the pointer.
pub fn nearest_within(distances: &Vec<Scalar>) -> (r: Option<usize>)
    requires
        forall|i: int| 0 <= i < distances@.len() ==> !(#[trigger] distances@[i]).is_nan_spec(),
    ensures
        r == caught(distances@),
        r matches Some(i) ==> i < distances@.len(),
{
    if distances.len() == 0 {
        return None;
    }
    let i = smallest(distances);
    let radius = Scalar { bits: SNAP_RADIUS_BITS };
    if distances[i].is_nan() || radius.lt(distances[i]) {
        None
    } else {
        Some(i)
    }
}

/// What is dragged after the point at `removed` is gone.
pub open spec fn dragging_after_removal(dragging: Option<usize>, removed: usize) -> Option<usize> {
    match dragging {
        Some(d) => if d == removed {
            None
        } else if d > removed {
            Some((d - 1) as usize)
        } else {
            Some(d)
        },
        None => None,
    }
}

/// The points without the one that was caught, if one was.
pub open spec fn points_without(points: Seq<Point>, near: Option<usize>) -> Seq<Point> {
    match near {
        Some(i) => points.remove(i as int),
        None => points,
    }
}

/// Removes the point that was caught. Says whether there was one.
pub fn remove_point(points: &mut Vec<Point>, mem: &mut EditorMemory, near: Option<usize>) -> (changed:
    bool)
    requires
        near matches Some(i) ==> i < old(points)@.len(),
    ensures
        changed == (near is Some),
        match near {
            Some(i) => final(points)@ == old(points)@.remove(i as int) && final(mem).dragging
                == dragging_after_removal(old(mem).dragging, i),
            None => final(points)@ == old(points)@ && *final(mem) == *old(mem),
        },
        final(points)@ == points_without(old(points)@, near),
{
    match near {
        Some(i) => {
            let _ = points.remove(i);
            mem.dragging =
            match mem.dragging {
                Some(d) => {
                    if d == i {
                        None
                    } else if d > i {
                        Some(d - 1)
                    } else {
                        Some(d)
                    }
                },
                None => None,
            };
            true
        },
        None => false,
    }
}

/// The point that is dragged stays the same when another is removed.
pub proof fn removal_keeps_dragged_point(points: Seq<Point>, dragged: usize, removed: usize)
    requires
        dragged < points.len(),
        removed < points.len(),
        dragged != removed,
    ensures
        dragging_after_removal(Some(dragged), removed) matches Some(d) && d < points.remove(
            removed as int,
        ).len() && points.remove(removed as int)[d as int] == points[dragged as int],
{
}

/// Adds a point at `at`.
pub fn add_point(points: &mut Vec<Point>, at: Point)
    ensures
        sorted_from(old(points)@.push(at), final(points)@),
        final(points)@.len() == old(points)@.len() + 1,
{
    points.push(at);
    sort_points(points);
}

/// Takes hold of the point that was caught, or of a new one at `at`. Says whether one was added: then
/// `hold` follows.
pub fn start_drag(
    points: &mut Vec<Point>,
    mem: &mut EditorMemory,
    near: Option<usize>,
    at: Point,
) -> (added: bool)
    ensures
        added == (near is None),
        match near {
            Some(i) => final(points)@ == old(points)@ && final(mem).dragging == Some(i),
            None => sorted_from(old(points)@.push(at), final(points)@) && *final(mem) == *old(
                mem,
            ),
        },
{
    match near {
        Some(i) => {
            mem.dragging = Some(i);
            false
        },
        None => {
            add_point(points, at);
            true
        },
    }
}

/// Takes hold of the first point for which `here` says that it lies where one was added, or of the
/// first at all.
pub fn hold(mem: &mut EditorMemory, here: &Vec<bool>)
    ensures
        final(mem).dragging == Some(first_true(here@) as usize),
{
    let mut i: usize = 0;
    while i < here.len()
        invariant
            i <= here@.len(),
            forall|k: int| 0 <= k < i ==> !here@[k],
        decreases here@.len() - i,
    {
        if here[i] {
            proof {
                lemma_first_true(here@, i as int);
            }
            mem.dragging = Some(i);
            return;
        }
        i += 1;
    }
    proof {
        lemma_none_true(here@);
    }
    mem.dragging = Some(0);
}

/// The first place that is true; 0 where none is.
pub open spec fn first_true(flags: Seq<bool>) -> int
    decreases flags.len(),
{
    if flags.len() == 0 || flags[0] || !flags.contains(true) {
        0
    } else {
        1 + first_true(flags.drop_first())
    }
}

proof fn lemma_first_true(flags: Seq<bool>, i: int)
    requires
        0 <= i < flags.len(),
        flags[i],
        forall|k: int| 0 <= k < i ==> !#[trigger] flags[k],
    ensures
        first_true(flags) == i,
    decreases flags.len(),
{
    assert(flags.contains(true));
    if i > 0 {
        assert(!flags[0]);
        let rest = flags.drop_first();
        assert forall|k: int| 0 <= k < i - 1 implies !#[trigger] rest[k] by {
            assert(rest[k] == flags[k + 1]);
        }
        lemma_first_true(rest, i - 1);
    }
}

proof fn lemma_none_true(flags: Seq<bool>)
    requires
        forall|k: int| 0 <= k < flags.len() ==> !#[trigger] flags[k],
    ensures
        first_true(flags) == 0,
{
    if flags.contains(true) {
        let k = choose|k: int| 0 <= k < flags.len() && flags[k] == true;
        assert(!flags[k]);
    }
}

/// The left or right end that a point of this place keeps to, if it is the first or the last.
pub open spec fn end_of(i: int, n: int) -> Option<Scalar> {
    if i == 0 {
        Some(Scalar { bits: 0 })
    } else if i + 1 == n {
        Some(Scalar { bits: ONE_BITS })
    } else {
        None
    }
}

/// The numbers `low` and `high` are in order.
pub open spec fn is_span(low: Scalar, high: Scalar) -> bool {
    !low.is_nan_spec() && !high.is_nan_spec() && !high.lt_spec(low)
}

/// Where the point at place `i` of `n` goes when it is dragged to `at`: the first and the last stay at
/// the ends, and one between stays between `low` and `high`.
pub open spec fn dragged(i: int, n: int, at: Point, low: Scalar, high: Scalar) -> Point {
    Point {
        x: match end_of(i, n) {
            Some(e) => e,
            None => at.x.clamped_spec(low, high),
        },
        y: at.y.clamped_spec(Scalar { bits: 0 }, Scalar { bits: ONE_BITS }),
    }
}

/// The points with the one that is dragged, if one is, moved towards `at`.
pub open spec fn points_dragged(
    points: Seq<Point>,
    dragging: Option<usize>,
    at: Point,
    low: Scalar,
    high: Scalar,
) -> Seq<Point> {
    match dragging {
        Some(i) => points.update(
            i as int,
            dragged(i as int, points.len() as int, at, low, high),
        ),
        None => points,
    }
}

/// Moves the point that is dragged towards `at`. One that is neither the first nor the last stays
/// between `low` and `high`. Says whether there was one.
pub fn drag_point(
    points: &mut Vec<Point>,
    mem: &EditorMemory,
    at: Point,
    low: Scalar,
    high: Scalar,
) -> (changed: bool)
    requires
        mem.dragging matches Some(i) ==> i < old(points)@.len() && (end_of(
            i as int,
            old(points)@.len() as int,
        ) is None ==> is_span(low, high)),
    ensures
        changed == (mem.dragging is Some),
        match mem.dragging {
            Some(i) => final(points)@ == old(points)@.update(
                i as int,
                dragged(i as int, old(points)@.len() as int, at, low, high),
            ),
            None => final(points)@ == old(points)@,
        },
        final(points)@ == points_dragged(old(points)@, mem.dragging, at, low, high),
{
    match mem.dragging {
        Some(i) => {
            let n = points.len();
            let x = if i == 0 {
                Scalar::zero()
            } else if i == n - 1 {
                Scalar::one()
            } else {
                at.x.clamped(low, high)
            };
            let y = at.y.clamped(Scalar::zero(), Scalar::one());
            points.set(i, Point { x, y });
            true
        },
        None => false,
    }
}

/// No point lies to the right of a later one.
pub open spec fn rise(points: Seq<Point>) -> bool {
    forall|i: int, j: int|
        0 <= i < j < points.len() ==> (#[trigger] points[i]).x.units() <= (
        #[trigger] points[j]).x.units()
}

/// Points that lie from left to right, between the ends, still do so after one was dragged, whose span
/// lies between its neighbours.
pub proof fn dragging_keeps_order(
    points: Seq<Point>,
    i: int,
    at: Point,
    low: Scalar,
    high: Scalar,
)
    requires
        0 <= i < points.len(),
        rise(points),
        !at.x.is_nan_spec(),
        forall|k: int|
            0 <= k < points.len() ==> (Scalar { bits: 0 }).units() <= (
            #[trigger] points[k]).x.units() <= (Scalar { bits: ONE_BITS }).units(),
        end_of(i, points.len() as int) is None ==> is_span(low, high) && points[i - 1].x.units()
            <= low.units() && high.units() <= points[i + 1].x.units(),
    ensures
        rise(points.update(i, dragged(i, points.len() as int, at, low, high))),
{
    let after = points.update(i, dragged(i, points.len() as int, at, low, high));
    assert forall|a: int, b: int| 0 <= a < b < after.len() implies (#[trigger] after[a]).x.units()
        <= (#[trigger] after[b]).x.units() by {
        if a == i {
            if i > 0 {
                assert(points[i + 1].x.units() <= points[b].x.units());
            } else {
                assert((Scalar { bits: 0 }).units() <= points[b].x.units());
            }
        } else if b == i {
            if i + 1 < points.len() {
                assert(points[a].x.units() <= points[i - 1].x.units());
            } else {
                assert(points[a].x.units() <= (Scalar { bits: ONE_BITS }).units());
            }
        }
    }
}

/// Where a number lies on a curve.
#[derive(Debug, Clone, Copy, PartialEq, Eq, Structural)]
pub enum CurvePlace {
    /// The curve has no points.
    Nowhere,
    /// The curve has the value of this point there.
    At(usize),
    /// Between this point and the next.
    After(usize),
}

/// How many points there are before the first that does not lie at `x` or to the left of it.
pub open spec fn passed(points: Seq<Point>, x: Scalar) -> int
    decreases points.len(),
{
    if points.len() == 0 || !points[0].x.le_spec(x) {
        0
    } else {
        1 + passed(points.drop_first(), x)
    }
}

/// Where `x` lies on the curve through `points`: a curve stays as it is beyond its first and its last
/// point.
pub open spec fn place_of(points: Seq<Point>, x: Scalar) -> CurvePlace {
    let n = points.len() as int;
    let at = passed(points, x) - 1;
    if n == 0 {
        CurvePlace::Nowhere
    } else if n == 1 || x.le_spec(points[0].x) {
        CurvePlace::At(0)
    } else if points[n - 1].x.le_spec(x) {
        CurvePlace::At((n - 1) as usize)
    } else if at < 0 {
        CurvePlace::After(0)
    } else if at > n - 2 {
        CurvePlace::After((n - 2) as usize)
    } else {
        CurvePlace::After(at as usize)
    }
}

/// Where `x` lies on the curve through `points`.
pub fn place_on(points: &Vec<Point>, x: Scalar) -> (p: CurvePlace)
    ensures
        p == place_of(points@, x),
        p matches CurvePlace::At(i) ==> i < points@.len(),
        p matches CurvePlace::After(i) ==> i + 1 < points@.len(),
{
    let n = points.len();
    if n == 0 {
        return CurvePlace::Nowhere;
    }
    if n == 1 || x.le(points[0].x) {
        return CurvePlace::At(0);
    }
    if points[n - 1].x.le(x) {
        return CurvePlace::At(n - 1);
    }
    let mut i: usize = 0;
    assert(points@.skip(0) == points@);
    while i < n && points[i].x.le(x)
        invariant
            i <= n == points@.len(),
            passed(points@, x) == i + passed(points@.skip(i as int), x),
        ensures
            i <= n,
            passed(points@, x) == i,
        decreases n - i,
    {
        assert(points@.skip(i as int).drop_first() == points@.skip(i + 1));
        i += 1;
    }
    if i == 0 {
        CurvePlace::After(0)
    } else if i - 1 > n - 2 {
        CurvePlace::After(n - 2)
    } else {
        CurvePlace::After(i - 1)
    }
}

proof fn lemma_passed(points: Seq<Point>, x: Scalar)
    ensures
        0 <= passed(points, x) <= points.len(),
        forall|k: int| 0 <= k < passed(points, x) ==> (#[trigger] points[k]).x.le_spec(x),
        passed(points, x) < points.len() ==> !points[passed(points, x)].x.le_spec(x),
    decreases points.len(),
{
    if points.len() > 0 && points[0].x.le_spec(x) {
        let rest = points.drop_first();
        lemma_passed(rest, x);
        assert forall|k: int| 0 <= k < passed(points, x) implies (#[trigger] points[k]).x.le_spec(
            x,
        ) by {
            if k > 0 {
                assert(rest[k - 1] == points[k]);
            }
        }
    }
}

/// A number between two points of a curve lies at the first or to the right of it, and to the left of
/// the second.
pub proof fn neighbours_enclose(points: Seq<Point>, x: Scalar)
    requires
        points.len() <= usize::MAX,
        !x.is_nan_spec(),
        forall|k: int| 0 <= k < points.len() ==> !(#[trigger] points[k]).x.is_nan_spec(),
    ensures
        place_of(points, x) matches CurvePlace::After(i) ==> i + 1 < points.len()
            && points[i as int].x.le_spec(x) && x.lt_spec(points[i + 1].x),
{
    lemma_passed(points, x);
    if place_of(points, x) is After {
        let n = passed(points, x);
        assert(points[0].x.le_spec(x));
        assert(!points[points.len() - 1].x.is_nan_spec());
        assert(n < points.len());
        assert(!points[n].x.is_nan_spec());
    }
}

} // verus!
