//! Filters and the stacks they form.
//!
//! Neighbouring filters of one kind are merged, so that two quarter turns become one half turn and
//! two flips vanish. Filters of one kind with another between them stay apart.
use crate::scalar::{Scalar, HALF_BITS, ONE_BITS};
use crate::text::{self, decimal_text, hex_text, joined, signed_decimal_text};
use vstd::prelude::*;

verus! {

broadcast use vstd::string::group_string_axioms;

/// A colour with its opacity.
#[derive(Debug, Clone, Copy, PartialEq, Eq, Structural)]
pub struct Rgba {
    pub r: u8,
    pub g: u8,
    pub b: u8,
    pub a: u8,
}

/// A point whose coordinates run from 0 to 1.
#[derive(Debug, Clone, Copy, PartialEq, Eq, Structural)]
pub struct Point {
    pub x: Scalar,
    pub y: Scalar,
}

/// What becomes of the pixels outside the source image after a turn by an odd angle.
#[derive(Debug, Clone, Copy, PartialEq, Eq, Structural)]
pub enum RotateFill {
    /// They stay transparent.
    Transparent,
    /// They take a solid colour.
    Color(Rgba),
    /// The output is cropped to the largest upright rectangle inside the turned image.
    Crop,
}

impl Default for RotateFill {
    fn default() -> (f: Self)
        ensures
            f == RotateFill::Transparent,
    {
        RotateFill::Transparent
    }
}

impl RotateFill {
    pub fn is_transparent(&self) -> (b: bool)
        ensures
            b == (*self == RotateFill::Transparent),
    {
        matches!(self, RotateFill::Transparent)
    }
}

/// One entry of a filter stack.
#[derive(Debug, PartialEq)]
pub enum Filter {
    /// A clockwise turn, about the image's centre where none is given.
    Rotate { degrees: i32, center: Option<Point>, fill: RotateFill },
    FlipHorizontal,
    FlipVertical,
    /// A part of the image, in coordinates from 0 to 1.
    Crop { x: Scalar, y: Scalar, width: Scalar, height: Scalar },
    /// A change of size; 1 keeps it.
    Scale { factor: Scalar },
    /// Exposure in stops; a positive number brightens.
    Exposure { stops: Scalar },
    /// Contrast; 1 keeps it.
    Contrast { factor: Scalar },
    /// The longer side shrinks to at most `max_px`.
    CapSize { max_px: u32 },
    /// A border of one colour.
    Border { thickness: u32, color: Rgba },
    Sharpen { amount: Scalar },
    /// Local contrast.
    MicroContrast { amount: Scalar },
    /// Tone curves by channel. A curve without points keeps its channel.
    Curves { r: Vec<Point>, g: Vec<Point>, b: Vec<Point> },
    /// A reference to a named stack.
    Preset { name: String },
}

/// The contents of a `Filter`.
pub ghost enum FilterView {
    Rotate { degrees: i32, center: Option<Point>, fill: RotateFill },
    FlipHorizontal,
    FlipVertical,
    Crop { x: Scalar, y: Scalar, width: Scalar, height: Scalar },
    Scale { factor: Scalar },
    Exposure { stops: Scalar },
    Contrast { factor: Scalar },
    CapSize { max_px: u32 },
    Border { thickness: u32, color: Rgba },
    Sharpen { amount: Scalar },
    MicroContrast { amount: Scalar },
    Curves { r: Seq<Point>, g: Seq<Point>, b: Seq<Point> },
    Preset { name: Seq<char> },
}

impl DeepView for Filter {
    type V = FilterView;

    open spec fn deep_view(&self) -> FilterView {
        match *self {
            Filter::Rotate { degrees, center, fill } => FilterView::Rotate {
                degrees,
                center,
                fill,
            },
            Filter::FlipHorizontal => FilterView::FlipHorizontal,
            Filter::FlipVertical => FilterView::FlipVertical,
            Filter::Crop { x, y, width, height } => FilterView::Crop { x, y, width, height },
            Filter::Scale { factor } => FilterView::Scale { factor },
            Filter::Exposure { stops } => FilterView::Exposure { stops },
            Filter::Contrast { factor } => FilterView::Contrast { factor },
            Filter::CapSize { max_px } => FilterView::CapSize { max_px },
            Filter::Border { thickness, color } => FilterView::Border { thickness, color },
            Filter::Sharpen { amount } => FilterView::Sharpen { amount },
            Filter::MicroContrast { amount } => FilterView::MicroContrast { amount },
            Filter::Curves { r, g, b } => FilterView::Curves { r: r@, g: g@, b: b@ },
            Filter::Preset { name } => FilterView::Preset { name: name@ },
        }
    }
}

fn copy_points(points: &Vec<Point>) -> (r: Vec<Point>)
    ensures
        r@ == points@,
{
    let r = points.clone();
    assert(r@ == points@);
    r
}

impl Clone for Filter {
    fn clone(&self) -> (f: Self)
        ensures
            f.deep_view() == self.deep_view(),
    {
        match self {
            Filter::Rotate { degrees, center, fill } => Filter::Rotate {
                degrees: *degrees,
                center: *center,
                fill: *fill,
            },
            Filter::FlipHorizontal => Filter::FlipHorizontal,
            Filter::FlipVertical => Filter::FlipVertical,
            Filter::Crop { x, y, width, height } => Filter::Crop {
                x: *x,
                y: *y,
                width: *width,
                height: *height,
            },
            Filter::Scale { factor } => Filter::Scale { factor: *factor },
            Filter::Exposure { stops } => Filter::Exposure { stops: *stops },
            Filter::Contrast { factor } => Filter::Contrast { factor: *factor },
            Filter::CapSize { max_px } => Filter::CapSize { max_px: *max_px },
            Filter::Border { thickness, color } => Filter::Border {
                thickness: *thickness,
                color: *color,
            },
            Filter::Sharpen { amount } => Filter::Sharpen { amount: *amount },
            Filter::MicroContrast { amount } => Filter::MicroContrast { amount: *amount },
            Filter::Curves { r, g, b } => Filter::Curves {
                r: copy_points(r),
                g: copy_points(g),
                b: copy_points(b),
            },
            Filter::Preset { name } => Filter::Preset { name: name.clone() },
        }
    }
}

/// A copy of a stack.
pub fn copy_stack(stack: &Vec<Filter>) -> (r: Vec<Filter>)
    ensures
        r.deep_view() == stack.deep_view(),
{
    let r = stack.clone();
    assert(r.deep_view() =~= stack.deep_view());
    r
}

/// Two optional centres lie at the same place.
pub open spec fn same_center(a: Option<Point>, b: Option<Point>) -> bool {
    match (a, b) {
        (None, None) => true,
        (Some(p), Some(q)) => p.x.eq_value(q.x) && p.y.eq_value(q.y),
        _ => false,
    }
}

impl FilterView {
    /// The kind of filter, as a number.
    pub open spec fn kind(self) -> int {
        match self {
            FilterView::Rotate { .. } => 0,
            FilterView::FlipHorizontal => 1,
            FilterView::FlipVertical => 2,
            FilterView::Crop { .. } => 3,
            FilterView::Scale { .. } => 4,
            FilterView::Exposure { .. } => 5,
            FilterView::Contrast { .. } => 6,
            FilterView::CapSize { .. } => 7,
            FilterView::Border { .. } => 8,
            FilterView::Sharpen { .. } => 9,
            FilterView::MicroContrast { .. } => 10,
            FilterView::Curves { .. } => 11,
            FilterView::Preset { .. } => 12,
        }
    }

    /// What `self` and `incoming`, of one kind, become together; `None` where they cancel.
    /// `combined` is the sum of the two amounts, or for contrast their product.
    pub open spec fn merged(self, incoming: FilterView, combined: Scalar) -> Option<FilterView> {
        match (self, incoming) {
            (
                FilterView::Rotate { degrees: a, center: ca, .. },
                FilterView::Rotate { degrees: b, center: cb, fill },
            ) => {
                if same_center(ca, cb) {
                    if (a + b) % 360 == 0 {
                        None
                    } else {
                        Some(
                            FilterView::Rotate {
                                degrees: ((a + b) % 360) as i32,
                                center: cb,
                                fill,
                            },
                        )
                    }
                } else if b as int % 360 == 0 {
                    None
                } else {
                    Some(incoming)
                }
            },
            (FilterView::FlipHorizontal, FilterView::FlipHorizontal) => None,
            (FilterView::FlipVertical, FilterView::FlipVertical) => None,
            (FilterView::Crop { .. }, FilterView::Crop { x, y, width, height }) => {
                if x.below_epsilon_spec() && y.below_epsilon_spec() && width.near_one_spec()
                    && height.near_one_spec() {
                    None
                } else {
                    Some(incoming)
                }
            },
            (FilterView::Scale { .. }, FilterView::Scale { factor }) => {
                if factor.near_one_spec() {
                    None
                } else {
                    Some(incoming)
                }
            },
            (FilterView::Exposure { .. }, FilterView::Exposure { .. }) => {
                if combined.near_zero_spec() {
                    None
                } else {
                    Some(FilterView::Exposure { stops: combined })
                }
            },
            (FilterView::Contrast { .. }, FilterView::Contrast { .. }) => {
                if combined.near_one_spec() {
                    None
                } else {
                    Some(FilterView::Contrast { factor: combined })
                }
            },
            (FilterView::CapSize { max_px: a }, FilterView::CapSize { max_px: b }) => {
                Some(
                    FilterView::CapSize {
                        max_px: if a <= b {
                            a
                        } else {
                            b
                        },
                    },
                )
            },
            (FilterView::Border { .. }, FilterView::Border { thickness, .. }) => {
                if thickness == 0 {
                    None
                } else {
                    Some(incoming)
                }
            },
            (FilterView::Sharpen { .. }, FilterView::Sharpen { .. }) => {
                if combined.near_zero_spec() {
                    None
                } else {
                    Some(FilterView::Sharpen { amount: combined })
                }
            },
            (FilterView::MicroContrast { .. }, FilterView::MicroContrast { .. }) => {
                if combined.near_zero_spec() {
                    None
                } else {
                    Some(FilterView::MicroContrast { amount: combined })
                }
            },
            (FilterView::Curves { .. }, FilterView::Curves { r, g, b }) => {
                if r.len() == 0 && g.len() == 0 && b.len() == 0 {
                    None
                } else {
                    Some(incoming)
                }
            },
            _ => None,
        }
    }
}

/// The arithmetic that a merge needs.
#[derive(Debug, Clone, Copy, PartialEq, Eq, Structural)]
pub enum Arithmetic {
    Nothing,
    Sum { a: Scalar, b: Scalar },
    Product { a: Scalar, b: Scalar },
}

/// The arithmetic that merging `last` with `incoming` needs: the sum of two exposures, sharpenings
/// or clarities, the product of two contrasts.
pub open spec fn merge_arithmetic(last: FilterView, incoming: FilterView) -> Arithmetic {
    match (last, incoming) {
        (FilterView::Exposure { stops: a }, FilterView::Exposure { stops: b }) => Arithmetic::Sum {
            a,
            b,
        },
        (FilterView::Contrast { factor: a }, FilterView::Contrast { factor: b }) =>
            Arithmetic::Product { a, b },
        (FilterView::Sharpen { amount: a }, FilterView::Sharpen { amount: b }) => Arithmetic::Sum {
            a,
            b,
        },
        (FilterView::MicroContrast { amount: a }, FilterView::MicroContrast { amount: b }) =>
            Arithmetic::Sum { a, b },
        _ => Arithmetic::Nothing,
    }
}

/// The remainder of `n` by 360, from 0 to 359.
pub fn turn(n: i64) -> (r: i32)
    ensures
        r == n as int % 360,
        0 <= r < 360,
{
    match n.checked_rem_euclid(360) {
        Some(r) => r as i32,
        None => 0,
    }
}

fn centers_agree(a: &Option<Point>, b: &Option<Point>) -> (r: bool)
    ensures
        r == same_center(*a, *b),
{
    match (a, b) {
        (None, None) => true,
        (Some(p), Some(q)) => p.x.equals(q.x) && p.y.equals(q.y),
        _ => false,
    }
}

impl Filter {
    /// Combine `self` with `incoming` of the same kind; `None` where they cancel. `combined` is what
    /// the arithmetic of the merge comes to. References to presets are not merged.
    pub fn merge_same(&self, incoming: &Filter, combined: Scalar) -> (r: Option<Filter>)
        requires
            self.deep_view().kind() == incoming.deep_view().kind(),
            !(self is Preset),
        ensures
            r is Some <==> self.deep_view().merged(incoming.deep_view(), combined) is Some,
            r matches Some(f) ==> Some(f.deep_view()) == self.deep_view().merged(
                incoming.deep_view(),
                combined,
            ),
    {
        match (self, incoming) {
            (
                Filter::Rotate { degrees: a, center: ca, .. },
                Filter::Rotate { degrees: b, center: cb, fill },
            ) => {
                if centers_agree(ca, cb) {
                    let total = turn(*a as i64 + *b as i64);
                    if total == 0 {
                        None
                    } else {
                        Some(Filter::Rotate { degrees: total, center: *cb, fill: *fill })
                    }
                } else if turn(*b as i64) == 0 {
                    None
                } else {
                    Some(Filter::Rotate { degrees: *b, center: *cb, fill: *fill })
                }
            },
            (Filter::Crop { .. }, Filter::Crop { x, y, width, height }) => {
                if x.below_epsilon() && y.below_epsilon() && width.near_one() && height.near_one() {
                    None
                } else {
                    Some(Filter::Crop { x: *x, y: *y, width: *width, height: *height })
                }
            },
            (Filter::Scale { .. }, Filter::Scale { factor }) => {
                if factor.near_one() {
                    None
                } else {
                    Some(Filter::Scale { factor: *factor })
                }
            },
            (Filter::Exposure { .. }, Filter::Exposure { .. }) => {
                if combined.near_zero() {
                    None
                } else {
                    Some(Filter::Exposure { stops: combined })
                }
            },
            (Filter::Contrast { .. }, Filter::Contrast { .. }) => {
                if combined.near_one() {
                    None
                } else {
                    Some(Filter::Contrast { factor: combined })
                }
            },
            (Filter::CapSize { max_px: a }, Filter::CapSize { max_px: b }) => {
                Some(
                    Filter::CapSize {
                        max_px: if *a <= *b {
                            *a
                        } else {
                            *b
                        },
                    },
                )
            },
            (Filter::Border { .. }, Filter::Border { thickness, color }) => {
                if *thickness == 0 {
                    None
                } else {
                    Some(Filter::Border { thickness: *thickness, color: *color })
                }
            },
            (Filter::Sharpen { .. }, Filter::Sharpen { .. }) => {
                if combined.near_zero() {
                    None
                } else {
                    Some(Filter::Sharpen { amount: combined })
                }
            },
            (Filter::MicroContrast { .. }, Filter::MicroContrast { .. }) => {
                if combined.near_zero() {
                    None
                } else {
                    Some(Filter::MicroContrast { amount: combined })
                }
            },
            (Filter::Curves { .. }, Filter::Curves { r, g, b }) => {
                if r.len() == 0 && g.len() == 0 && b.len() == 0 {
                    None
                } else {
                    Some(incoming.clone())
                }
            },
            _ => None,
        }
    }

    /// The kind of filter, as a number.
    fn kind_number(&self) -> (k: u8)
        ensures
            k == self.deep_view().kind(),
    {
        match self {
            Filter::Rotate { .. } => 0,
            Filter::FlipHorizontal => 1,
            Filter::FlipVertical => 2,
            Filter::Crop { .. } => 3,
            Filter::Scale { .. } => 4,
            Filter::Exposure { .. } => 5,
            Filter::Contrast { .. } => 6,
            Filter::CapSize { .. } => 7,
            Filter::Border { .. } => 8,
            Filter::Sharpen { .. } => 9,
            Filter::MicroContrast { .. } => 10,
            Filter::Curves { .. } => 11,
            Filter::Preset { .. } => 12,
        }
    }

    /// Whether two filters are of one kind.
    pub fn same_kind(&self, other: &Filter) -> (b: bool)
        ensures
            b == (self.deep_view().kind() == other.deep_view().kind()),
    {
        self.kind_number() == other.kind_number()
    }
}

/// The stack after `incoming` has been applied to `stack`.
pub open spec fn stacked(
    stack: Seq<FilterView>,
    incoming: FilterView,
    combined: Scalar,
) -> Seq<FilterView> {
    if stack.len() > 0 && stack.last().kind() == incoming.kind() {
        match stack.last().merged(incoming, combined) {
            Some(merged) => stack.drop_last().push(merged),
            None => stack.drop_last(),
        }
    } else {
        stack.push(incoming)
    }
}

/// A preset reference does not follow another.
pub open spec fn may_stack(stack: Seq<FilterView>, incoming: FilterView) -> bool {
    stack.len() > 0 && stack.last() is Preset ==> !(incoming is Preset)
}

/// Whether `incoming` can be applied to `stack`.
pub fn can_stack(stack: &Vec<Filter>, incoming: &Filter) -> (b: bool)
    ensures
        b == may_stack(stack.deep_view(), incoming.deep_view()),
{
    if stack.len() == 0 {
        return true;
    }
    assert(stack.deep_view().last() == stack@[stack@.len() - 1].deep_view());
    !matches!(&stack[stack.len() - 1], Filter::Preset { .. }) || !matches!(
        incoming,
        Filter::Preset { .. }
    )
}

/// The arithmetic that applying `incoming` to `stack` needs.
pub fn stack_arithmetic(stack: &Vec<Filter>, incoming: &Filter) -> (r: Arithmetic)
    ensures
        r == if stack@.len() > 0 {
            merge_arithmetic(stack.deep_view().last(), incoming.deep_view())
        } else {
            Arithmetic::Nothing
        },
{
    if stack.len() == 0 {
        return Arithmetic::Nothing;
    }
    match (&stack[stack.len() - 1], incoming) {
        (Filter::Exposure { stops: a }, Filter::Exposure { stops: b }) => Arithmetic::Sum {
            a: *a,
            b: *b,
        },
        (Filter::Contrast { factor: a }, Filter::Contrast { factor: b }) => Arithmetic::Product {
            a: *a,
            b: *b,
        },
        (Filter::Sharpen { amount: a }, Filter::Sharpen { amount: b }) => Arithmetic::Sum {
            a: *a,
            b: *b,
        },
        (Filter::MicroContrast { amount: a }, Filter::MicroContrast { amount: b }) =>
            Arithmetic::Sum { a: *a, b: *b },
        _ => Arithmetic::Nothing,
    }
}

/// Apply `incoming` to `stack`, merging it with the last filter where that is of the same kind.
/// `combined` is what `stack_arithmetic` comes to; where that is nothing it is not looked at.
pub fn apply_to_stack(stack: &mut Vec<Filter>, incoming: Filter, combined: Scalar)
    requires
        may_stack(old(stack).deep_view(), incoming.deep_view()),
    ensures
        final(stack).deep_view() == stacked(
            old(stack).deep_view(),
            incoming.deep_view(),
            combined,
        ),
{
    let n = stack.len();
    if n > 0 && stack[n - 1].same_kind(&incoming) {
        assert(stack.deep_view().last() == stack@[n - 1].deep_view());
        let merged = stack[n - 1].merge_same(&incoming, combined);
        let ghost before = stack.deep_view();
        stack.pop();
        assert(stack.deep_view() == before.drop_last());
        if let Some(f) = merged {
            let ghost shorter = stack.deep_view();
            stack.push(f);
            assert(stack.deep_view() == shorter.push(f.deep_view()));
        }
    } else {
        let ghost before = stack.deep_view();
        stack.push(incoming);
        assert(stack.deep_view() == before.push(incoming.deep_view()));
    }
}

/// The sum of the angles of all turns in a stack.
pub open spec fn rotation_total(stack: Seq<FilterView>) -> int
    decreases stack.len(),
{
    if stack.len() == 0 {
        0
    } else {
        rotation_total(stack.drop_last()) + match stack.last() {
            FilterView::Rotate { degrees, .. } => degrees as int,
            _ => 0,
        }
    }
}

/// The net clockwise turn of a stack, from 0 to 359 degrees.
pub fn net_rotation(filters: &[Filter]) -> (r: i32)
    ensures
        r == rotation_total(filters.deep_view()) % 360,
{
    let mut acc: i32 = 0;
    let mut i: usize = 0;
    while i < filters.len()
        invariant
            i <= filters@.len(),
            0 <= acc < 360,
            acc == rotation_total(filters.deep_view().take(i as int)) % 360,
        decreases filters@.len() - i,
    {
        let ghost upto = filters.deep_view().take(i + 1);
        proof {
            assert(upto.drop_last() == filters.deep_view().take(i as int));
            assert(upto.last() == filters@[i as int].deep_view());
        }
        if let Filter::Rotate { degrees, .. } = &filters[i] {
            proof {
                vstd::arithmetic::div_mod::lemma_add_mod_noop(
                    rotation_total(upto.drop_last()),
                    *degrees as int,
                    360,
                );
                vstd::arithmetic::div_mod::lemma_add_mod_noop(acc as int, *degrees as int, 360);
                vstd::arithmetic::div_mod::lemma_small_mod(acc as nat, 360);
            }
            acc = turn(acc as i64 + *degrees as i64);
        }
        i += 1;
    }
    assert(filters.deep_view().take(i as int) == filters.deep_view());
    acc
}

/// No two neighbours in the stack are of one kind.
pub open spec fn neighbours_differ(stack: Seq<FilterView>) -> bool {
    forall|i: int, j: int|
        0 <= i < stack.len() && j == i + 1 && j < stack.len() ==> (#[trigger] stack[i]).kind() != (
        #[trigger] stack[j]).kind()
}

/// Applying a filter never puts two filters of one kind next to each other.
pub proof fn stacking_keeps_neighbours_apart(
    stack: Seq<FilterView>,
    incoming: FilterView,
    combined: Scalar,
)
    requires
        neighbours_differ(stack),
    ensures
        neighbours_differ(stacked(stack, incoming, combined)),
{
    let after = stacked(stack, incoming, combined);
    if stack.len() > 0 && stack.last().kind() == incoming.kind() {
        merging_keeps_kind(stack.last(), incoming, combined);
    }
    assert forall|i: int, j: int|
        0 <= i < after.len() && j == i + 1 && j < after.len() implies (#[trigger] after[i]).kind()
        != (#[trigger] after[j]).kind() by {
        if j < stack.len() {
            assert(stack[i].kind() != stack[j].kind());
        }
    }
}

/// Two filters of one kind merge into a filter of that kind.
pub proof fn merging_keeps_kind(last: FilterView, incoming: FilterView, combined: Scalar)
    requires
        last.kind() == incoming.kind(),
    ensures
        last.merged(incoming, combined) matches Some(f) ==> f.kind() == incoming.kind(),
{
}

/// A filter whose kind differs from that of the last is kept as it is, whatever stands further down.
pub proof fn other_kinds_are_kept_apart(
    stack: Seq<FilterView>,
    incoming: FilterView,
    combined: Scalar,
)
    requires
        stack.len() > 0 ==> stack.last().kind() != incoming.kind(),
    ensures
        stacked(stack, incoming, combined) == stack.push(incoming),
{
}

/// A flip applied twice leaves the stack as it was.
pub proof fn flips_are_self_inverse(stack: Seq<FilterView>, flip: FilterView, combined: Scalar)
    requires
        flip is FlipHorizontal || flip is FlipVertical,
        stack.len() > 0 ==> stack.last().kind() != flip.kind(),
    ensures
        stacked(stacked(stack, flip, combined), flip, combined) == stack,
{
    assert(stack.push(flip).drop_last() == stack);
}

/// Two turns about one place that add up to full turns leave the stack as it was.
pub proof fn opposite_turns_cancel(
    stack: Seq<FilterView>,
    first: FilterView,
    second: FilterView,
    combined: Scalar,
)
    requires
        stack.len() > 0 ==> !(stack.last() is Rotate),
        first is Rotate,
        second is Rotate,
        same_center(first->center, second->center),
        (first->degrees + second->degrees) % 360 == 0,
    ensures
        stacked(stacked(stack, first, combined), second, combined) == stack,
{
    assert(stack.push(first).drop_last() == stack);
}

/// A turn about the place of the last turn adds to the net turn of the stack.
pub proof fn turns_add_up(stack: Seq<FilterView>, incoming: FilterView, combined: Scalar)
    requires
        incoming is Rotate,
        stack.len() > 0 && stack.last() is Rotate ==> same_center(
            stack.last()->center,
            incoming->center,
        ),
    ensures
        rotation_total(stacked(stack, incoming, combined)) % 360 == (rotation_total(stack)
            + incoming->degrees) % 360,
{
    let after = stacked(stack, incoming, combined);
    if stack.len() > 0 && stack.last() is Rotate {
        let a = stack.last()->degrees as int;
        let b = incoming->degrees as int;
        let rest = rotation_total(stack.drop_last());
        vstd::arithmetic::div_mod::lemma_add_mod_noop_right(rest, a + b, 360);
        match stack.last().merged(incoming, combined) {
            Some(f) => {
                assert(after.drop_last() == stack.drop_last());
                assert(rotation_total(after) == rest + (a + b) % 360);
            },
            None => {
                assert(after == stack.drop_last());
            },
        }
    } else {
        assert(after.drop_last() == stack);
    }
}

/// A filter that turns nothing leaves the net turn of the stack as it was.
pub proof fn other_filters_do_not_turn(stack: Seq<FilterView>, incoming: FilterView, combined: Scalar)
    requires
        !(incoming is Rotate),
    ensures
        rotation_total(stacked(stack, incoming, combined)) == rotation_total(stack),
{
    let after = stacked(stack, incoming, combined);
    if stack.len() > 0 && stack.last().kind() == incoming.kind() {
        match stack.last().merged(incoming, combined) {
            Some(f) => {
                merging_keeps_kind(stack.last(), incoming, combined);
                assert(after.drop_last() == stack.drop_last());
            },
            None => {},
        }
    } else {
        assert(after.drop_last() == stack);
    }
}

/// A number that a description writes out: in per cent without decimals, or with two decimals.
#[derive(Debug, Clone, Copy, PartialEq, Eq, Structural)]
pub struct Written {
    pub value: Scalar,
    pub percent: bool,
}

pub open spec fn in_percent(value: Scalar) -> Written {
    Written { value, percent: true }
}

pub open spec fn two_decimals(value: Scalar) -> Written {
    Written { value, percent: false }
}

/// The numbers that the description of a filter writes out, in order.
pub open spec fn numbers_of(f: FilterView) -> Seq<Written> {
    match f {
        FilterView::Rotate { center: Some(c), .. } => seq![in_percent(c.x), in_percent(c.y)],
        FilterView::Crop { x, y, width, height } => seq![
            in_percent(width),
            in_percent(height),
            in_percent(x),
            in_percent(y),
        ],
        FilterView::Scale { factor } => seq![in_percent(factor)],
        FilterView::Exposure { stops } => seq![two_decimals(stops)],
        FilterView::Contrast { factor } => seq![two_decimals(factor)],
        FilterView::Sharpen { amount } => seq![two_decimals(amount)],
        FilterView::MicroContrast { amount } => seq![two_decimals(amount)],
        _ => Seq::empty(),
    }
}

/// The description of a filter, its numbers written out as `n`.
pub open spec fn description_of(f: FilterView, n: Seq<Seq<char>>) -> Seq<char> {
    match f {
        FilterView::Rotate { degrees, center: None, .. } => "Rotated "@ + signed_decimal_text(
            degrees as int,
        ) + "°"@,
        FilterView::Rotate { degrees, center: Some(_), .. } => "Rotated "@ + signed_decimal_text(
            degrees as int,
        ) + "° around ("@ + n[0] + "%,"@ + n[1] + "%)"@,
        FilterView::FlipHorizontal => "Flipped H"@,
        FilterView::FlipVertical => "Flipped V"@,
        FilterView::Crop { .. } => "Crop "@ + n[0] + "%×"@ + n[1] + "% at ("@ + n[2] + "%,"@ + n[3]
            + "%)"@,
        FilterView::Scale { .. } => "Scale "@ + n[0] + "%"@,
        FilterView::Exposure { stops } => if stops.at_least_zero_spec() {
            "+"@ + n[0] + " EV"@
        } else {
            n[0] + " EV"@
        },
        FilterView::Contrast { .. } => "Contrast ×"@ + n[0],
        FilterView::CapSize { max_px } => "Cap "@ + decimal_text(max_px as nat) + "px"@,
        FilterView::Border { thickness, color } => "Border "@ + decimal_text(thickness as nat)
            + "px #"@ + hex_text(color.r as nat, 2) + hex_text(color.g as nat, 2) + hex_text(
            color.b as nat,
            2,
        ),
        FilterView::Sharpen { .. } => "Sharpen "@ + n[0],
        FilterView::MicroContrast { .. } => "Clarity "@ + n[0],
        FilterView::Curves { r, g, b } => "Curves ("@ + decimal_text(r.len()) + "/"@ + decimal_text(
            g.len(),
        ) + "/"@ + decimal_text(b.len()) + " pts)"@,
        FilterView::Preset { name } => "Preset: "@ + name,
    }
}

/// The description of a stack, the numbers of its filters written out as `n`.
pub open spec fn stack_description(stack: Seq<FilterView>, n: Seq<Seq<Seq<char>>>) -> Seq<char> {
    if stack.len() == 0 {
        "Filters cleared"@
    } else {
        joined(Seq::new(stack.len(), |i: int| description_of(stack[i], n[i])), ", "@)
    }
}

/// The numbers that the description of `filter` writes out, in order.
pub fn numbers_to_write(filter: &Filter) -> (r: Vec<Written>)
    ensures
        r@ == numbers_of(filter.deep_view()),
{
    match filter {
        Filter::Rotate { center: Some(c), .. } => vec![
            Written { value: c.x, percent: true },
            Written { value: c.y, percent: true },
        ],
        Filter::Crop { x, y, width, height } => vec![
            Written { value: *width, percent: true },
            Written { value: *height, percent: true },
            Written { value: *x, percent: true },
            Written { value: *y, percent: true },
        ],
        Filter::Scale { factor } => vec![Written { value: *factor, percent: true }],
        Filter::Exposure { stops } => vec![Written { value: *stops, percent: false }],
        Filter::Contrast { factor } => vec![Written { value: *factor, percent: false }],
        Filter::Sharpen { amount } => vec![Written { value: *amount, percent: false }],
        Filter::MicroContrast { amount } => vec![Written { value: *amount, percent: false }],
        _ => Vec::new(),
    }
}

fn describe(filter: &Filter, n: &Vec<String>) -> (s: String)
    requires
        n@.len() == numbers_of(filter.deep_view()).len(),
    ensures
        s@ == description_of(filter.deep_view(), n.deep_view()),
{
    match filter {
        Filter::Rotate { degrees, center, .. } => {
            let mut s = "Rotated ".to_owned();
            let d = text::signed_decimal(*degrees);
            s.append(d.as_str());
            match center {
                None => s.append("°"),
                Some(_) => {
                    s.append("° around (");
                    s.append(n[0].as_str());
                    s.append("%,");
                    s.append(n[1].as_str());
                    s.append("%)");
                },
            }
            s
        },
        Filter::FlipHorizontal => "Flipped H".to_owned(),
        Filter::FlipVertical => "Flipped V".to_owned(),
        Filter::Crop { .. } => {
            let mut s = "Crop ".to_owned();
            s.append(n[0].as_str());
            s.append("%×");
            s.append(n[1].as_str());
            s.append("% at (");
            s.append(n[2].as_str());
            s.append("%,");
            s.append(n[3].as_str());
            s.append("%)");
            s
        },
        Filter::Scale { .. } => {
            let mut s = "Scale ".to_owned();
            s.append(n[0].as_str());
            s.append("%");
            s
        },
        Filter::Exposure { stops } => {
            if stops.at_least_zero() {
                let mut s = "+".to_owned();
                s.append(n[0].as_str());
                s.append(" EV");
                s
            } else {
                let mut s = n[0].clone();
                s.append(" EV");
                s
            }
        },
        Filter::Contrast { .. } => {
            let mut s = "Contrast ×".to_owned();
            s.append(n[0].as_str());
            s
        },
        Filter::CapSize { max_px } => {
            let mut s = "Cap ".to_owned();
            s.append(text::decimal(*max_px as u64).as_str());
            s.append("px");
            s
        },
        Filter::Border { thickness, color } => {
            let mut s = "Border ".to_owned();
            s.append(text::decimal(*thickness as u64).as_str());
            s.append("px #");
            s.append(text::hex(color.r as u64, 2).as_str());
            s.append(text::hex(color.g as u64, 2).as_str());
            s.append(text::hex(color.b as u64, 2).as_str());
            s
        },
        Filter::Sharpen { .. } => {
            let mut s = "Sharpen ".to_owned();
            s.append(n[0].as_str());
            s
        },
        Filter::MicroContrast { .. } => {
            let mut s = "Clarity ".to_owned();
            s.append(n[0].as_str());
            s
        },
        Filter::Curves { r, g, b } => {
            let mut s = "Curves (".to_owned();
            s.append(text::decimal(r.len() as u64).as_str());
            s.append("/");
            s.append(text::decimal(g.len() as u64).as_str());
            s.append("/");
            s.append(text::decimal(b.len() as u64).as_str());
            s.append(" pts)");
            s
        },
        Filter::Preset { name } => {
            let mut s = "Preset: ".to_owned();
            s.append(name.as_str());
            s
        },
    }
}

/// What the stack does, in words. `numbers` holds for each filter its numbers written out.
pub fn filter_description(filters: &Vec<Filter>, numbers: &Vec<Vec<String>>) -> (s: String)
    requires
        numbers@.len() == filters@.len(),
        forall|i: int|
            0 <= i < filters@.len() ==> (#[trigger] numbers@[i])@.len() == numbers_of(
                filters@[i].deep_view(),
            ).len(),
    ensures
        s@ == stack_description(filters.deep_view(), numbers.deep_view()),
{
    if filters.len() == 0 {
        return "Filters cleared".to_owned();
    }
    let mut parts: Vec<String> = Vec::new();
    let mut i: usize = 0;
    while i < filters.len()
        invariant
            i <= filters@.len(),
            numbers@.len() == filters@.len(),
            forall|k: int|
                0 <= k < filters@.len() ==> (#[trigger] numbers@[k])@.len() == numbers_of(
                    filters@[k].deep_view(),
                ).len(),
            parts@.len() == i,
            forall|k: int|
                0 <= k < i ==> (#[trigger] parts@[k])@ == description_of(
                    filters@[k].deep_view(),
                    numbers@[k].deep_view(),
                ),
        decreases filters@.len() - i,
    {
        parts.push(describe(&filters[i], &numbers[i]));
        i += 1;
    }
    assert(parts.deep_view() == Seq::new(
        filters.deep_view().len(),
        |k: int| description_of(filters.deep_view()[k], numbers.deep_view()[k]),
    ));
    text::join(&parts, ", ")
}

/// The name under which the sidebar lists a filter.
pub open spec fn kind_name(f: FilterView) -> Seq<char> {
    match f {
        FilterView::Rotate { .. } => "Rotate"@,
        FilterView::FlipHorizontal => "Flip H"@,
        FilterView::FlipVertical => "Flip V"@,
        FilterView::Crop { .. } => "Crop"@,
        FilterView::Scale { .. } => "Scale"@,
        FilterView::Exposure { .. } => "Exposure"@,
        FilterView::Contrast { .. } => "Contrast"@,
        FilterView::CapSize { .. } => "Cap Size"@,
        FilterView::Border { .. } => "Border"@,
        FilterView::Sharpen { .. } => "Sharpen"@,
        FilterView::MicroContrast { .. } => "Clarity"@,
        FilterView::Curves { .. } => "Curves"@,
        FilterView::Preset { name } => "Preset: "@ + name,
    }
}

/// The name under which the sidebar lists a filter.
pub fn filter_kind_name(filter: &Filter) -> (s: String)
    ensures
        s@ == kind_name(filter.deep_view()),
{
    match filter {
        Filter::Rotate { .. } => "Rotate".to_owned(),
        Filter::FlipHorizontal => "Flip H".to_owned(),
        Filter::FlipVertical => "Flip V".to_owned(),
        Filter::Crop { .. } => "Crop".to_owned(),
        Filter::Scale { .. } => "Scale".to_owned(),
        Filter::Exposure { .. } => "Exposure".to_owned(),
        Filter::Contrast { .. } => "Contrast".to_owned(),
        Filter::CapSize { .. } => "Cap Size".to_owned(),
        Filter::Border { .. } => "Border".to_owned(),
        Filter::Sharpen { .. } => "Sharpen".to_owned(),
        Filter::MicroContrast { .. } => "Clarity".to_owned(),
        Filter::Curves { .. } => "Curves".to_owned(),
        Filter::Preset { name } => {
            let mut s = "Preset: ".to_owned();
            s.append(name.as_str());
            s
        },
    }
}

/// Whether the sidebar has anything to set for a filter.
pub fn filter_has_params(filter: &Filter) -> (b: bool)
    ensures
        b == !(filter is FlipHorizontal || filter is FlipVertical || filter is Preset),
{
    !matches!(filter, Filter::FlipHorizontal | Filter::FlipVertical | Filter::Preset { .. })
}

pub open spec fn spec_scalar(bits: u32) -> Scalar {
    Scalar { bits }
}

/// The straight line from black to white.
pub open spec fn straight_curve() -> Seq<Point> {
    seq![
        Point { x: spec_scalar(0), y: spec_scalar(0) },
        Point { x: spec_scalar(ONE_BITS), y: spec_scalar(ONE_BITS) },
    ]
}

/// The filters that the sidebar offers to add, with their labels.
pub open spec fn add_list() -> Seq<(Seq<char>, FilterView)> {
    seq![
        (
            "Rotate"@,
            FilterView::Rotate { degrees: 0, center: None, fill: RotateFill::Transparent },
        ),
        ("Flip H"@, FilterView::FlipHorizontal),
        ("Flip V"@, FilterView::FlipVertical),
        (
            "Crop"@,
            FilterView::Crop {
                x: spec_scalar(0),
                y: spec_scalar(0),
                width: spec_scalar(ONE_BITS),
                height: spec_scalar(ONE_BITS),
            },
        ),
        ("Scale"@, FilterView::Scale { factor: spec_scalar(ONE_BITS) }),
        ("Exposure"@, FilterView::Exposure { stops: spec_scalar(0) }),
        ("Contrast"@, FilterView::Contrast { factor: spec_scalar(ONE_BITS) }),
        ("Sharpen"@, FilterView::Sharpen { amount: spec_scalar(ONE_BITS) }),
        ("Clarity"@, FilterView::MicroContrast { amount: spec_scalar(HALF_BITS) }),
        (
            "Curves"@,
            FilterView::Curves {
                r: straight_curve(),
                g: straight_curve(),
                b: straight_curve(),
            },
        ),
        ("Cap Size"@, FilterView::CapSize { max_px: 1024 }),
        (
            "Border"@,
            FilterView::Border { thickness: 20, color: Rgba { r: 255, g: 255, b: 255, a: 255 } },
        ),
    ]
}

fn straight() -> (v: Vec<Point>)
    ensures
        v@ == straight_curve(),
{
    vec![
        Point { x: Scalar::zero(), y: Scalar::zero() },
        Point { x: Scalar::one(), y: Scalar::one() },
    ]
}

/// The filters that the sidebar offers to add, in display order.
pub fn filter_add_list() -> (r: Vec<(&'static str, Filter)>)
    ensures
        r@.len() == add_list().len(),
        forall|i: int|
            0 <= i < r@.len() ==> (#[trigger] r@[i]).0@ == add_list()[i].0 && r@[i].1.deep_view()
                == add_list()[i].1,
{
    let mut r: Vec<(&'static str, Filter)> = Vec::new();
    r.push(
        (
            "Rotate",
            Filter::Rotate { degrees: 0, center: None, fill: RotateFill::Transparent },
        ),
    );
    r.push(("Flip H", Filter::FlipHorizontal));
    r.push(("Flip V", Filter::FlipVertical));
    r.push(
        (
            "Crop",
            Filter::Crop {
                x: Scalar::zero(),
                y: Scalar::zero(),
                width: Scalar::one(),
                height: Scalar::one(),
            },
        ),
    );
    r.push(("Scale", Filter::Scale { factor: Scalar::one() }));
    r.push(("Exposure", Filter::Exposure { stops: Scalar::zero() }));
    r.push(("Contrast", Filter::Contrast { factor: Scalar::one() }));
    r.push(("Sharpen", Filter::Sharpen { amount: Scalar::one() }));
    r.push(("Clarity", Filter::MicroContrast { amount: Scalar::half() }));
    r.push(("Curves", Filter::Curves { r: straight(), g: straight(), b: straight() }));
    r.push(("Cap Size", Filter::CapSize { max_px: 1024 }));
    r.push(
        (
            "Border",
            Filter::Border { thickness: 20, color: Rgba { r: 255, g: 255, b: 255, a: 255 } },
        ),
    );
    r
}

/// The channel that a tone curve belongs to.
#[derive(Debug, Clone, Copy, PartialEq, Eq, Structural)]
pub enum Channel {
    Red,
    Green,
    Blue,
}

/// One change that the sidebar makes to the parameters of a filter.
#[derive(Debug)]
pub enum FilterEdit {
    Degrees(i32),
    FillTransparent,
    FillCrop,
    /// Fill with a colour: opaque black, where none is chosen yet.
    FillColor,
    /// The colour to fill with.
    SetFillColor(Rgba),
    /// Turn about a place of its own, at first the middle, or about the image's centre.
    CustomCenter(bool),
    CenterX(Scalar),
    CenterY(Scalar),
    CropX(Scalar),
    CropY(Scalar),
    CropWidth(Scalar),
    CropHeight(Scalar),
    /// The factor of a scale or a contrast.
    Factor(Scalar),
    Stops(Scalar),
    MaxPx(u32),
    Thickness(u32),
    BorderColor(Rgba),
    /// The amount of a sharpening or a clarity.
    Amount(Scalar),
    /// The points of one tone curve.
    Curve { channel: Channel, points: Vec<Point> },
}

/// The filter after `edit`, or `None` where `edit` changes nothing in it.
pub open spec fn edited(f: FilterView, edit: FilterEdit) -> Option<FilterView> {
    match (f, edit) {
        (FilterView::Rotate { center, fill, .. }, FilterEdit::Degrees(degrees)) => Some(
            FilterView::Rotate { degrees, center, fill },
        ),
        (FilterView::Rotate { degrees, center, .. }, FilterEdit::FillTransparent) => Some(
            FilterView::Rotate { degrees, center, fill: RotateFill::Transparent },
        ),
        (FilterView::Rotate { degrees, center, .. }, FilterEdit::FillCrop) => Some(
            FilterView::Rotate { degrees, center, fill: RotateFill::Crop },
        ),
        (FilterView::Rotate { degrees, center, fill }, FilterEdit::FillColor) => if fill is Color {
            None
        } else {
            Some(
                FilterView::Rotate {
                    degrees,
                    center,
                    fill: RotateFill::Color(Rgba { r: 0, g: 0, b: 0, a: 255 }),
                },
            )
        },
        (FilterView::Rotate { degrees, center, fill }, FilterEdit::SetFillColor(c)) => if fill
            is Color {
            Some(FilterView::Rotate { degrees, center, fill: RotateFill::Color(c) })
        } else {
            None
        },
        (FilterView::Rotate { degrees, fill, .. }, FilterEdit::CustomCenter(on)) => Some(
            FilterView::Rotate {
                degrees,
                center: if on {
                    Some(Point { x: spec_scalar(HALF_BITS), y: spec_scalar(HALF_BITS) })
                } else {
                    None
                },
                fill,
            },
        ),
        (FilterView::Rotate { degrees, center: Some(c), fill }, FilterEdit::CenterX(x)) => Some(
            FilterView::Rotate { degrees, center: Some(Point { x, y: c.y }), fill },
        ),
        (FilterView::Rotate { degrees, center: Some(c), fill }, FilterEdit::CenterY(y)) => Some(
            FilterView::Rotate { degrees, center: Some(Point { x: c.x, y }), fill },
        ),
        (FilterView::Crop { y, width, height, .. }, FilterEdit::CropX(x)) => Some(
            FilterView::Crop { x, y, width, height },
        ),
        (FilterView::Crop { x, width, height, .. }, FilterEdit::CropY(y)) => Some(
            FilterView::Crop { x, y, width, height },
        ),
        (FilterView::Crop { x, y, height, .. }, FilterEdit::CropWidth(width)) => Some(
            FilterView::Crop { x, y, width, height },
        ),
        (FilterView::Crop { x, y, width, .. }, FilterEdit::CropHeight(height)) => Some(
            FilterView::Crop { x, y, width, height },
        ),
        (FilterView::Scale { .. }, FilterEdit::Factor(factor)) => Some(
            FilterView::Scale { factor },
        ),
        (FilterView::Exposure { .. }, FilterEdit::Stops(stops)) => Some(
            FilterView::Exposure { stops },
        ),
        (FilterView::Contrast { .. }, FilterEdit::Factor(factor)) => Some(
            FilterView::Contrast { factor },
        ),
        (FilterView::CapSize { .. }, FilterEdit::MaxPx(max_px)) => Some(
            FilterView::CapSize { max_px },
        ),
        (FilterView::Border { color, .. }, FilterEdit::Thickness(thickness)) => Some(
            FilterView::Border { thickness, color },
        ),
        (FilterView::Border { thickness, .. }, FilterEdit::BorderColor(color)) => Some(
            FilterView::Border { thickness, color },
        ),
        (FilterView::Sharpen { .. }, FilterEdit::Amount(amount)) => Some(
            FilterView::Sharpen { amount },
        ),
        (FilterView::MicroContrast { .. }, FilterEdit::Amount(amount)) => Some(
            FilterView::MicroContrast { amount },
        ),
        (FilterView::Curves { r, g, b }, FilterEdit::Curve { channel, points }) => Some(
            match channel {
                Channel::Red => FilterView::Curves { r: points@, g, b },
                Channel::Green => FilterView::Curves { r, g: points@, b },
                Channel::Blue => FilterView::Curves { r, g, b: points@ },
            },
        ),
        _ => None,
    }
}

/// Changes a parameter of `filter`, and says whether anything changed. An edit that does not
/// belong to the filter's kind changes nothing.
pub fn edit_filter(filter: &mut Filter, edit: FilterEdit) -> (changed: bool)
    ensures
        changed == (edited(old(filter).deep_view(), edit) is Some),
        final(filter).deep_view() == match edited(old(filter).deep_view(), edit) {
            Some(f) => f,
            None => old(filter).deep_view(),
        },
{
    match filter {
        Filter::Rotate { degrees, center, fill } => match edit {
            FilterEdit::Degrees(d) => {
                *degrees = d;
                true
            },
            FilterEdit::FillTransparent => {
                *fill = RotateFill::Transparent;
                true
            },
            FilterEdit::FillCrop => {
                *fill = RotateFill::Crop;
                true
            },
            FilterEdit::FillColor => {
                if matches!(*fill, RotateFill::Color(_)) {
                    false
                } else {
                    *fill = RotateFill::Color(Rgba { r: 0, g: 0, b: 0, a: 255 });
                    true
                }
            },
            FilterEdit::SetFillColor(c) => {
                if matches!(*fill, RotateFill::Color(_)) {
                    *fill = RotateFill::Color(c);
                    true
                } else {
                    false
                }
            },
            FilterEdit::CustomCenter(on) => {
                *center =
                if on {
                    Some(Point { x: Scalar::half(), y: Scalar::half() })
                } else {
                    None
                };
                true
            },
            FilterEdit::CenterX(x) => match *center {
                Some(c) => {
                    *center = Some(Point { x, y: c.y });
                    true
                },
                None => false,
            },
            FilterEdit::CenterY(y) => match *center {
                Some(c) => {
                    *center = Some(Point { x: c.x, y });
                    true
                },
                None => false,
            },
            _ => false,
        },
        Filter::Crop { x, y, width, height } => match edit {
            FilterEdit::CropX(v) => {
                *x = v;
                true
            },
            FilterEdit::CropY(v) => {
                *y = v;
                true
            },
            FilterEdit::CropWidth(v) => {
                *width = v;
                true
            },
            FilterEdit::CropHeight(v) => {
                *height = v;
                true
            },
            _ => false,
        },
        Filter::Scale { factor } => match edit {
            FilterEdit::Factor(v) => {
                *factor = v;
                true
            },
            _ => false,
        },
        Filter::Exposure { stops } => match edit {
            FilterEdit::Stops(v) => {
                *stops = v;
                true
            },
            _ => false,
        },
        Filter::Contrast { factor } => match edit {
            FilterEdit::Factor(v) => {
                *factor = v;
                true
            },
            _ => false,
        },
        Filter::CapSize { max_px } => match edit {
            FilterEdit::MaxPx(v) => {
                *max_px = v;
                true
            },
            _ => false,
        },
        Filter::Border { thickness, color } => match edit {
            FilterEdit::Thickness(v) => {
                *thickness = v;
                true
            },
            FilterEdit::BorderColor(v) => {
                *color = v;
                true
            },
            _ => false,
        },
        Filter::Sharpen { amount } => match edit {
            FilterEdit::Amount(v) => {
                *amount = v;
                true
            },
            _ => false,
        },
        Filter::MicroContrast { amount } => match edit {
            FilterEdit::Amount(v) => {
                *amount = v;
                true
            },
            _ => false,
        },
        Filter::Curves { r, g, b } => match edit {
            FilterEdit::Curve { channel, points } => {
                match channel {
                    Channel::Red => {
                        *r = points;
                    },
                    Channel::Green => {
                        *g = points;
                    },
                    Channel::Blue => {
                        *b = points;
                    },
                }
                true
            },
            _ => false,
        },
        _ => false,
    }
}

/// Changing a parameter leaves the kind of a filter as it is.
pub proof fn editing_keeps_kind(f: FilterView, edit: FilterEdit)
    ensures
        edited(f, edit) matches Some(g) ==> g.kind() == f.kind(),
{
}

/// The stack of a gallery: what comes before a photo's own filters, these, and what comes after.
pub open spec fn composed(
    photo: Seq<FilterView>,
    gallery: Option<(Seq<FilterView>, Seq<FilterView>)>,
) -> Seq<FilterView> {
    match gallery {
        None => photo,
        Some((pre, post)) => pre + photo + post,
    }
}

/// Appends a copy of `from` to `to`.
pub fn append_stack(to: &mut Vec<Filter>, from: &Vec<Filter>)
    ensures
        final(to).deep_view() == old(to).deep_view() + from.deep_view(),
{
    let mut more = copy_stack(from);
    to.append(&mut more);
    assert(to.deep_view() =~= old(to).deep_view() + from.deep_view());
}

/// The views of the stacks that a gallery puts around those of its photos.
pub open spec fn gallery_stacks(gallery: Option<(Vec<Filter>, Vec<Filter>)>) -> Option<
    (Seq<FilterView>, Seq<FilterView>),
> {
    match gallery {
        None => None,
        Some((pre, post)) => Some((pre.deep_view(), post.deep_view())),
    }
}

/// The effective stack: the gallery's first filters, the photo's, the gallery's last.
pub fn compose_filters(photo: &Vec<Filter>, gallery: &Option<(Vec<Filter>, Vec<Filter>)>) -> (r: Vec<
    Filter,
>)
    ensures
        r.deep_view() == composed(photo.deep_view(), gallery_stacks(*gallery)),
{
    match gallery {
        None => copy_stack(photo),
        Some(g) => {
            let mut r = copy_stack(&g.0);
            append_stack(&mut r, photo);
            append_stack(&mut r, &g.1);
            r
        },
    }
}

} // verus!
