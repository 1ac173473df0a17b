//! The grid, the single photo, and the actions on them.
use crate::actions::{
    executed, forgets, may_execute, next_of_all, next_rating, script_arguments, work_of,
    ActionContext, ActionInput, AppState, Effect, Work,
};
use crate::binding::ActionView;
use crate::filters::{merge_arithmetic, stacked, Arithmetic};
use crate::image_cache::{lemma_value_without, value_of};
use crate::labels::page_count;
use crate::panels::{own_size_is_shown, slideshow_ticks, Tick};
use crate::scalar::{lemma_magnitude_monotone, Scalar};
use crate::template::expanded;
use crate::viewer::{
    clamped_zoom, index_run, moved, nearest_index, neighbours, zoomed_cols, Direction, ModeTarget,
    SingleState, TilingState, ViewerState,
};
use vstd::prelude::*;

verus! {

/// A grid that is put on a photo has that photo in focus, on a tile of the page.
proof fn lemma_focused_on(s: TilingState, index: int)
    requires
        s.wf(),
        0 <= index <= usize::MAX,
    ensures
        s.focused_on(index).focus() == index,
        s.focused_on(index).cols == s.cols,
        0 <= s.focused_on(index).selected < s.tiles(),
        s.focused_on(index).wf(),
{
    let t = s.tiles();
    assert(t >= 1) by (nonlinear_arith)
        requires
            t == s.cols * s.cols,
            1 <= s.cols,
    ;
    vstd::arithmetic::div_mod::lemma_fundamental_div_mod(index, t);
    vstd::arithmetic::div_mod::lemma_div_is_ordered_by_denominator(index, 1, t);
    assert(0 <= index / t <= index) by (nonlinear_arith)
        requires
            0 <= index,
            t >= 1,
    ;
    assert((index / t) * t == t * (index / t)) by (nonlinear_arith);
    assert(0 <= index % t < t);
}

/// Moving a row back, from a photo that has a row above it, puts the focus in the same column of
/// that row; from the first row it goes to the first photo. Moving a row on puts it in the same
/// column of the row below, or on the last photo where there is none.
#[verifier::spinoff_prover]
pub proof fn rows_keep_the_column(
    direction: Direction,
    a: ActionContext,
    input: ActionInput,
    now: u64,
    b: ActionContext,
    effect: Effect,
)
    requires
        a.wf(),
        executed(ActionView::NavigateTilingRow { direction }, a, input, now, b, effect),
    ensures
        a.viewer is Single ==> b.viewer == a.viewer,
        a.viewer matches ViewerState::Tiling(s) ==> {
            let total = a.display@.len() as int;
            &&& b.viewer is Tiling
            &&& b.viewer->Tiling_0.cols == s.cols
            &&& total == 0 ==> b.viewer == a.viewer
            &&& total > 0 && direction is Prev && a.viewer.focus() >= s.cols ==> b.viewer.focus()
                + s.cols == a.viewer.focus()
            &&& total > 0 && direction is Prev && a.viewer.focus() < s.cols ==> b.viewer.focus() == 0
            &&& total > 0 && direction is Next && a.viewer.focus() + s.cols < total
                ==> b.viewer.focus() == a.viewer.focus() + s.cols
            &&& total > 0 && direction is Next && a.viewer.focus() + s.cols >= total
                ==> b.viewer.focus() == total - 1
        },
        a.display@.len() > 0 ==> b.viewer.focus() < a.display@.len(),
{
    if let ViewerState::Tiling(s) = a.viewer {
        let total = a.display@.len() as int;
        assert(total == a.display.len());
        if total > 0 {
            lemma_focused_on(s, total - 1);
            if s.focus() + s.cols < total {
                lemma_focused_on(s, s.focus() + s.cols);
            }
            if s.focus() >= s.cols {
                lemma_focused_on(s, s.focus() - s.cols);
            }
            lemma_focused_on(s, 0);
        }
    }
}

/// A row on and a row back return to the photo where they began, if there is a row to go on to.
pub proof fn a_row_on_and_back_returns(
    a: ActionContext,
    b: ActionContext,
    c: ActionContext,
    input: ActionInput,
    now: u64,
    first: Effect,
    second: Effect,
)
    requires
        a.wf(),
        b.wf(),
        executed(
            ActionView::NavigateTilingRow { direction: Direction::Next },
            a,
            input,
            now,
            b,
            first,
        ),
        executed(
            ActionView::NavigateTilingRow { direction: Direction::Prev },
            b,
            input,
            now,
            c,
            second,
        ),
        a.viewer matches ViewerState::Tiling(s) && s.focus() + s.cols < a.display@.len(),
    ensures
        c.viewer.focus() == a.viewer.focus(),
{
    rows_keep_the_column(Direction::Next, a, input, now, b, first);
    rows_keep_the_column(Direction::Prev, b, input, now, c, second);
}

/// One step on goes to the next photo, and from the last to the first; one step back goes to the
/// one before, and from the first to the last.
pub proof fn one_step_goes_to_the_neighbour(current: int, total: int)
    requires
        0 <= current < total,
    ensures
        current + 1 < total ==> moved(current, Direction::Next, 1, total) == current + 1,
        moved(total - 1, Direction::Next, 1, total) == 0,
        current > 0 ==> moved(current, Direction::Prev, 1, total) == current - 1,
        moved(0, Direction::Prev, 1, total) == total - 1,
{
    vstd::arithmetic::div_mod::lemma_mod_self_0(total);
    if current + 1 < total {
        vstd::arithmetic::div_mod::lemma_small_mod((current + 1) as nat, total as nat);
    }
    if current > 0 {
        vstd::arithmetic::div_mod::lemma_small_mod((current - 1) as nat, total as nat);
    }
    vstd::arithmetic::div_mod::lemma_fundamental_div_mod_converse(-1, total, -1, total - 1);
}

/// Steps add up: going on by one number of photos and then by another goes on by their sum.
pub proof fn steps_add_up(current: int, dir: Direction, m: int, n: int, total: int)
    requires
        total > 0,
    ensures
        moved(moved(current, dir, m, total), dir, n, total) == moved(current, dir, m + n, total),
        0 <= moved(current, dir, m, total) < total,
{
    if dir is Next {
        vstd::arithmetic::div_mod::lemma_add_mod_noop(current + m, n, total);
        vstd::arithmetic::div_mod::lemma_mod_twice(current + m, total);
        vstd::arithmetic::div_mod::lemma_add_mod_noop((current + m) % total, n, total);
    } else {
        vstd::arithmetic::div_mod::lemma_sub_mod_noop(current - m, n, total);
        vstd::arithmetic::div_mod::lemma_mod_twice(current - m, total);
        vstd::arithmetic::div_mod::lemma_sub_mod_noop((current - m) % total, n, total);
    }
}

/// Navigation moves the focus by the asked number of photos around what is shown. A grid stays a
/// grid of its dimension, a single photo stays alone, and the photos stay; the clock of a slideshow
/// starts anew.
#[verifier::spinoff_prover]
pub proof fn navigation_moves_the_focus(
    direction: Direction,
    count: usize,
    a: ActionContext,
    input: ActionInput,
    now: u64,
    b: ActionContext,
    effect: Effect,
)
    requires
        a.wf(),
        executed(ActionView::Navigate { direction, count }, a, input, now, b, effect),
        a.display@.len() > 0,
    ensures
        b.viewer.focus() == moved(
            a.viewer.focus(),
            direction,
            count as int,
            a.display@.len() as int,
        ),
        a.viewer is Tiling ==> b.viewer is Tiling && b.viewer->Tiling_0.cols
            == a.viewer->Tiling_0.cols,
        a.viewer is Single ==> b.viewer is Single,
        a.viewer is Single && b.viewer.focus() == a.viewer.focus() ==> b.viewer == a.viewer,
        b.app_state.slideshow_last_at == now,
        b.collection == a.collection,
        b.display == a.display,
{
    let total = a.display@.len() as int;
    assert(total == a.display.len());
    steps_add_up(a.viewer.focus(), direction, count as int, 0, total);
    if let ViewerState::Tiling(s) = a.viewer {
        lemma_focused_on(s, moved(s.focus(), direction, count as int, total));
    }
}

/// A grid has from one to seven columns after a zoom: a step in takes one away, a step out adds
/// one, and a step in undoes a step out within those bounds.
pub proof fn zooming_steps_through_columns(cols: int, delta: int)
    requires
        1 <= cols <= 7,
    ensures
        1 <= zoomed_cols(cols, delta) <= 7,
        cols > 1 ==> zoomed_cols(cols, 1) == cols - 1,
        zoomed_cols(1, 1) == 1,
        cols < 7 ==> zoomed_cols(cols, -1) == cols + 1,
        zoomed_cols(7, -1) == 7,
        1 <= cols - delta <= 7 ==> zoomed_cols(zoomed_cols(cols, delta), -delta) == cols,
        delta >= 0 ==> zoomed_cols(cols, delta) <= cols,
        delta <= 0 ==> zoomed_cols(cols, delta) >= cols,
{
}

/// Zooming a grid and changing between grid and single photo keep the photo in focus.
#[verifier::spinoff_prover]
pub proof fn the_focus_is_kept(
    action: ActionView,
    a: ActionContext,
    input: ActionInput,
    now: u64,
    b: ActionContext,
    effect: Effect,
)
    requires
        a.wf(),
        executed(action, a, input, now, b, effect),
        a.display@.len() > 0,
        action is ZoomTiling || action is ZoomSingle || action is ZoomSingleFit || action
            is ZoomSingleToOne || action is SwitchMode || action is ToggleFilterSidebar || action
            is ToggleHistogram || action is ToggleFullscreen || action is CycleRating || action
            is ApplyFilter || action is Quit || action is ToggleSlideshow || action is RunScript,
    ensures
        b.viewer.focus() == a.viewer.focus(),
{
    let focus = a.viewer.focus();
    if let ViewerState::Tiling(s) = a.viewer {
        let steps: int = if action is ZoomTiling {
            action->ZoomTiling_delta as int
        } else {
            input.steps as int
        };
        let cols = zoomed_cols(s.cols as int, steps) as usize;
        let fresh = TilingState { cols, ..s };
        assert(1 <= zoomed_cols(s.cols as int, steps) <= 7);
        lemma_fits(fresh.cols as int);
        lemma_put(fresh, focus);
        assert(nearest_index(focus, a.display@.len() as int) == focus);
    }
    if let ViewerState::Tiling(s) = b.viewer {
        if s == s.focused_on(focus) && s.cols >= 1 {
            lemma_put(s, focus);
        }
    }
}

/// Small grids have few tiles.
proof fn lemma_fits(cols: int)
    requires
        1 <= cols <= 7,
    ensures
        1 <= cols * cols <= 49,
{
    assert(1 <= cols * cols <= 49) by (nonlinear_arith)
        requires
            1 <= cols <= 7,
    ;
}

/// A grid of any dimension that is put on a photo has that photo in focus.
proof fn lemma_put(s: TilingState, index: int)
    requires
        1 <= s.cols,
        0 <= index <= usize::MAX,
    ensures
        s.tiles() <= usize::MAX ==> s.focused_on(index).focus() == index,
        index < s.tiles() ==> s.focused_on(index).focus() == index,
{
    let t = s.tiles();
    assert(t >= 1) by (nonlinear_arith)
        requires
            t == s.cols * s.cols,
            1 <= s.cols,
    ;
    vstd::arithmetic::div_mod::lemma_fundamental_div_mod(index, t);
    assert(0 <= index / t <= index) by (nonlinear_arith)
        requires
            0 <= index,
            t >= 1,
    ;
    assert((index / t) * t == t * (index / t)) by (nonlinear_arith);
    assert(0 <= index % t < t);
    if index < t {
        vstd::arithmetic::div_mod::lemma_small_mod(index as nat, t as nat);
        vstd::arithmetic::div_mod::lemma_basic_div(index, t);
    }
}

/// The mode that is asked for is the mode that is shown; a toggle changes it.
pub proof fn modes_are_switched(
    mode: ModeTarget,
    a: ActionContext,
    input: ActionInput,
    now: u64,
    b: ActionContext,
    effect: Effect,
)
    requires
        executed(ActionView::SwitchMode { mode }, a, input, now, b, effect),
    ensures
        mode is Tiling ==> b.viewer is Tiling,
        mode is Single ==> b.viewer is Single,
        mode is Toggle ==> (b.viewer is Tiling <==> a.viewer is Single),
        b.viewer matches ViewerState::Single(s) ==> s.zoom == (Scalar { bits: 0x3f80_0000 })
            && s.pan.x.bits == 0 && s.pan.y.bits == 0,
        b.viewer matches ViewerState::Tiling(s) ==> s.cols * s.cols >= a.tile_count && (s.cols - 1)
            * (s.cols - 1) <= a.tile_count,
        b.app_state == a.app_state,
        b.overlay == a.overlay,
        b.collection == a.collection,
{
    if let ViewerState::Tiling(s) = b.viewer {
        if s.cols == 1 {
            assert((s.cols - 1) * (s.cols - 1) == 0) by (nonlinear_arith)
                requires
                    s.cols == 1,
            ;
        }
    }
}

/// A zoom is kept between a tenth and twenty times; between them it is left as it is.
pub proof fn zooms_are_kept_in_bounds(zoom: Scalar)
    requires
        !zoom.is_nan_spec(),
    ensures
        ({
            let least = Scalar { bits: 0x3dcc_cccd };
            let most = Scalar { bits: 0x41a0_0000 };
            &&& least.units() <= clamped_zoom(zoom).units() <= most.units()
            &&& least.units() <= zoom.units() <= most.units() ==> clamped_zoom(zoom) == zoom
            &&& zoom.units() < least.units() ==> clamped_zoom(zoom) == least
            &&& zoom.units() > most.units() ==> clamped_zoom(zoom) == most
        }),
{
    lemma_magnitude_monotone(0x3dcc_cccd, 0x41a0_0000);
}

/// Zooming a single photo sets its zoom and leaves the photo and its place; fitting it resets both.
pub proof fn zooming_sets_the_zoom(
    action: ActionView,
    a: ActionContext,
    input: ActionInput,
    now: u64,
    b: ActionContext,
    effect: Effect,
)
    requires
        executed(action, a, input, now, b, effect),
        a.viewer is Single,
    ensures
        action is ZoomTiling || action is ZoomSingle ==> b.viewer == ViewerState::Single(
            SingleState { zoom: clamped_zoom(input.scaled), ..a.viewer->Single_0 },
        ),
        action is ZoomSingleFit ==> b.viewer is Single && b.viewer->Single_0.current_index
            == a.viewer->Single_0.current_index && b.viewer->Single_0.zoom == (Scalar {
            bits: 0x3f80_0000,
        }) && b.viewer->Single_0.pan.x.bits == 0 && b.viewer->Single_0.pan.y.bits == 0,
{
}

/// What is to be worked out before an action: the new zoom of a single photo, from its own zoom and
/// the asked steps; for a grid the number of steps; for a filter the merge with the photo's last
/// one.
pub proof fn actions_ask_for_what_they_need(action: ActionView, cx: ActionContext)
    ensures
        action is ZoomTiling && cx.viewer is Single ==> work_of(action, cx) == (Work::ZoomSteps {
            zoom: cx.viewer->Single_0.zoom,
            steps: action->ZoomTiling_delta,
        }),
        action is ZoomSingle && cx.viewer is Single ==> work_of(action, cx) == (Work::Zoom {
            zoom: cx.viewer->Single_0.zoom,
            delta: action->ZoomSingle_delta,
        }),
        action is ZoomSingle && cx.viewer is Tiling ==> work_of(action, cx) == (Work::GridSteps {
            delta: action->ZoomSingle_delta,
        }),
        action is ApplyFilter && cx.display@.len() > 0 && cx.focused_data().filters.len() > 0
            ==> work_of(action, cx) == Work::Merge(
            merge_arithmetic(cx.focused_data().filters.last(), action->ApplyFilter_filter),
        ),
        action is ApplyFilter && cx.display@.len() > 0 && cx.focused_data().filters.len() == 0
            ==> work_of(action, cx) == Work::Merge(Arithmetic::Nothing),
{
}

/// A switch that is thrown twice is as it was.
pub proof fn switches_go_back(
    action: ActionView,
    a: ActionContext,
    b: ActionContext,
    c: ActionContext,
    input: ActionInput,
    now: u64,
    first: Effect,
    second: Effect,
)
    requires
        executed(action, a, input, now, b, first),
        executed(action, b, input, now, c, second),
    ensures
        action is ToggleSlideshow ==> b.app_state.slideshow_active != a.app_state.slideshow_active
            && c.app_state.slideshow_active == a.app_state.slideshow_active
            && b.app_state.slideshow_last_at == now,
        action is ToggleFilterSidebar ==> b.app_state.filter_sidebar_open
            != a.app_state.filter_sidebar_open && c.app_state == a.app_state,
        action is ToggleHistogram ==> b.app_state.show_histogram != a.app_state.show_histogram
            && c.app_state == a.app_state,
        action is ToggleFullscreen ==> b.app_state.is_fullscreen != a.app_state.is_fullscreen
            && c.app_state.is_fullscreen == a.app_state.is_fullscreen
            && b.app_state.fullscreen_pending == Some(b.app_state.is_fullscreen),
{
}

/// Each part of the state is changed by its own actions alone.
pub proof fn actions_keep_to_their_own(
    action: ActionView,
    a: ActionContext,
    input: ActionInput,
    now: u64,
    b: ActionContext,
    effect: Effect,
)
    requires
        executed(action, a, input, now, b, effect),
    ensures
        b.app_state.should_quit == (a.app_state.should_quit || action is Quit),
        !(action is ToggleSlideshow) ==> b.app_state.slideshow_active
            == a.app_state.slideshow_active,
        !(action is ToggleSlideshow || action is Navigate) ==> b.app_state.slideshow_last_at
            == a.app_state.slideshow_last_at,
        !(action is ToggleFilterSidebar) ==> b.app_state.filter_sidebar_open
            == a.app_state.filter_sidebar_open,
        !(action is ToggleHistogram) ==> b.app_state.show_histogram == a.app_state.show_histogram,
        !(action is ToggleFullscreen) ==> b.app_state.is_fullscreen == a.app_state.is_fullscreen
            && b.app_state.fullscreen_pending == a.app_state.fullscreen_pending,
        b.app_state.zoom_to_one_pending == (a.app_state.zoom_to_one_pending || action
            is ZoomSingleToOne),
        b.app_state.script_running == a.app_state.script_running,
        b.app_state.background_color == a.app_state.background_color,
        b.app_state.show_annotations == a.app_state.show_annotations,
        !(action is CycleRating || action is ApplyFilter) ==> b.collection == a.collection,
        b.display@ == a.display@,
        b.tile_count == a.tile_count,
{
}

/// A rating changes the rating of the photo in focus, and a filter its filters; no other photo
/// changes, nor anything else of that one.
pub proof fn only_the_photo_in_focus_changes(
    action: ActionView,
    a: ActionContext,
    input: ActionInput,
    now: u64,
    b: ActionContext,
    effect: Effect,
)
    requires
        a.wf(),
        executed(action, a, input, now, b, effect),
        a.display@.len() > 0,
        action is ApplyFilter || action is CycleRating && action->values.len() > 0,
    ensures
        ({
            let at = a.display@[a.viewer.focus()] as int;
            let was = a.collection.photos()[at];
            let is = b.collection.photos()[at];
            &&& b.collection.photos().len() == a.collection.photos().len()
            &&& forall|j: int|
                0 <= j < a.collection.photos().len() && j != at ==> #[trigger] b.collection.photos()[j]
                    == a.collection.photos()[j]
            &&& is.path == was.path
            &&& is.hash == was.hash
            &&& is.index == was.index
            &&& is.galerie_source == was.galerie_source
            &&& is.data.annotations == was.data.annotations
            &&& action is CycleRating ==> is.data.filters == was.data.filters && is.data.rating
                == next_rating(was.data.rating, action->values)
            &&& action is ApplyFilter ==> is.data.rating == was.data.rating && is.data.filters
                == stacked(was.data.filters, action->ApplyFilter_filter, input.combined)
        }),
{
}

/// A script runs on the photo in focus, unless one is running or there is no photo, which is said.
pub proof fn scripts_run_on_the_focus(
    action: ActionView,
    a: ActionContext,
    input: ActionInput,
    now: u64,
    b: ActionContext,
    effect: Effect,
)
    requires
        a.wf(),
        action is RunScript,
        executed(action, a, input, now, b, effect),
    ensures
        effect is RunScript <==> !a.app_state.script_running && a.display@.len() > 0,
        effect matches Effect::RunScript { index } ==> index == a.display@[a.viewer.focus()] && a
            == b,
        a.app_state.script_running ==> b.overlay.message() == Some("Script already running"@),
        !a.app_state.script_running && a.display@.len() == 0 ==> b.overlay.message() == Some(
            "No photo selected"@,
        ),
{
}

/// A script gets one argument for each of the action's, expanded for the photo, in order.
pub proof fn scripts_get_every_argument(
    action: ActionView,
    path: Seq<char>,
    width: nat,
    height: nat,
    i: int,
)
    requires
        action is RunScript,
        0 <= i < action->args.len(),
    ensures
        script_arguments(action, path, width, height).len() == action->args.len(),
        script_arguments(action, path, width, height)[i] == expanded(
            action->args[i],
            path,
            width,
            height,
        ),
{
}

/// Ratings are gone through in order: after one comes the next, after the last comes none, after
/// none comes the first, and a rating that is not among them starts anew.
pub proof fn ratings_go_in_order(values: Seq<u8>, i: int, stray: u8)
    requires
        0 <= i < values.len(),
        values.no_duplicates(),
        !values.contains(stray),
    ensures
        next_rating(None, values) == Some(values[0]),
        next_rating(Some(stray), values) == Some(values[0]),
        i + 1 < values.len() ==> next_rating(Some(values[i]), values) == Some(values[i + 1]),
        next_rating(Some(values.last()), values) == None::<u8>,
{
    lemma_place_of_rating(values, i);
    lemma_place_of_rating(values, values.len() - 1);
    assert(values.contains(values[i]));
    assert(values.contains(values.last()));
}

/// The first place of a value that occurs once.
proof fn lemma_place_of_rating(values: Seq<u8>, i: int)
    requires
        0 <= i < values.len(),
        values.no_duplicates(),
    ensures
        crate::actions::first_place(values, values[i]) == i,
    decreases i,
{
    if i > 0 {
        let rest = values.drop_first();
        assert(rest.no_duplicates());
        assert(rest[i - 1] == values[i]);
        assert(values[0] != values[i]);
        lemma_place_of_rating(rest, i - 1);
    }
}

/// The photos to have at hand are, of a page, the photos from its first to its last, each once and
/// in order.
pub proof fn runs_hold_what_lies_between(from: int, to: int, i: int)
    requires
        0 <= from <= usize::MAX,
        0 <= to <= usize::MAX,
        0 <= i <= usize::MAX,
    ensures
        index_run(from, to).contains(i as usize) <==> from <= i < to,
        from <= to ==> index_run(from, to).len() == to - from,
        forall|a: int, b: int|
            0 <= a < b < index_run(from, to).len() ==> #[trigger] index_run(from, to)[a]
                < #[trigger] index_run(from, to)[b],
{
    if from <= i < to {
        assert(index_run(from, to)[i - from] == i as usize);
    }
}

/// Besides a single photo, the one before it and the one after it are to be at hand, as far as they
/// exist, and no others.
pub proof fn neighbours_are_at_hand(index: int, total: int, i: int)
    requires
        0 <= index < total <= usize::MAX,
        0 <= i < total,
    ensures
        neighbours(index, total)[0] == index,
        neighbours(index, total).contains(i as usize) <==> index - 1 <= i <= index + 1,
{
    let all = neighbours(index, total);
    assert(all[0] == index as usize);
    if index > 0 {
        assert(all[1] == (index - 1) as usize);
        if index + 1 < total {
            assert(all[2] == (index + 1) as usize);
        }
    } else if index + 1 < total {
        assert(all[1] == (index + 1) as usize);
    }
}

/// The pages of a grid have room for all photos, and one page less has not.
pub proof fn pages_have_room_for_all(s: TilingState, total: int)
    requires
        1 <= s.cols,
        0 <= total,
    ensures
        page_count(s, total) * s.tiles() >= total,
        total > 0 ==> (page_count(s, total) - 1) * s.tiles() < total,
        total == 0 ==> page_count(s, total) == 0,
{
    let t = s.tiles();
    let n = page_count(s, total);
    assert(t >= 1) by (nonlinear_arith)
        requires
            t == s.cols * s.cols,
            1 <= s.cols,
    ;
    vstd::arithmetic::div_mod::lemma_fundamental_div_mod(total + t - 1, t);
    assert(n * t == t * n) by (nonlinear_arith);
    assert((n - 1) * t == n * t - t) by (nonlinear_arith);
    if total == 0 {
        vstd::arithmetic::div_mod::lemma_basic_div(t - 1, t);
    }
}

/// An index beyond the last photo stands for the last photo, and every other for itself.
pub proof fn the_nearest_photo_exists(index: int, total: int)
    requires
        0 <= index,
        0 < total,
    ensures
        0 <= nearest_index(index, total) < total,
        index < total ==> nearest_index(index, total) == index,
        index >= total ==> nearest_index(index, total) == total - 1,
{
}

/// Most actions can always be done. Moving on needs a sum that the machine can hold, and zooming a
/// grid of up to seven columns a number of steps that is not near the largest.
pub proof fn actions_can_be_done(action: ActionView, cx: ActionContext, input: ActionInput)
    requires
        cx.wf(),
    ensures
        !(action is Navigate || action is ZoomTiling || action is ZoomSingle || action is CycleRating
            || action is ApplyFilter) ==> may_execute(action, cx, input),
        action matches ActionView::Navigate { direction, count } ==> direction is Prev
            || cx.viewer.focus() + count <= usize::MAX ==> may_execute(action, cx, input),
        action matches ActionView::ZoomTiling { delta } ==> (cx.viewer is Single || (
        cx.viewer->Tiling_0.cols <= 7 && -1000 <= delta <= 1000)) ==> may_execute(action, cx, input),
        cx.display@.len() == 0 && (action is CycleRating || action is ApplyFilter) ==> may_execute(
            action,
            cx,
            input,
        ),
{
    if let ActionView::Navigate { direction, count } = action {
        let total = cx.display@.len() as int;
        if total > 0 && direction is Next {
            assert(count as int % total <= count) by {
                vstd::arithmetic::div_mod::lemma_mod_decreases(count as nat, total as nat);
            }
        }
    }
}

/// At the start nothing runs and nothing is open, and the background is black.
pub proof fn the_start_is_quiet(now: u64)
    ensures
        ({
            let s = AppState::initial(now);
            &&& !s.should_quit
            &&& !s.slideshow_active
            &&& s.slideshow_last_at == now
            &&& !s.script_running
            &&& !s.filter_sidebar_open
            &&& s.background_color is Black
            &&& !s.show_histogram
            &&& !s.needs_scroll_to_selection
            &&& !s.is_fullscreen
            &&& s.fullscreen_pending is None
            &&& !s.zoom_to_one_pending
            &&& !s.show_annotations
        }),
{
}

/// A photo whose filters changed is forgotten, and no other; what came of it is said.
pub proof fn changed_photos_are_forgotten(
    a: ActionContext,
    b: ActionContext,
    index: usize,
    text: Seq<char>,
    now: u64,
    other: usize,
)
    requires
        forgets(a, b, index, text, now),
        other != index,
    ensures
        value_of(b.cache@.entries, index) is None,
        !b.cache@.pending.contains_key(index),
        value_of(b.cache@.entries, other) == value_of(a.cache@.entries, other),
        b.cache@.pending.contains_key(other) == a.cache@.pending.contains_key(other),
        b.overlay.message() == Some(text),
        b.collection == a.collection,
        b.viewer == a.viewer,
        b.display == a.display,
{
    lemma_value_without(a.cache@.entries, index, index);
    lemma_value_without(a.cache@.entries, index, other);
}

/// Starting a slideshow is told, and so is stopping it; the photo in focus stays.
pub proof fn slideshows_tell_their_state(
    a: ActionContext,
    input: ActionInput,
    now: u64,
    b: ActionContext,
    effect: Effect,
)
    requires
        executed(ActionView::ToggleSlideshow, a, input, now, b, effect),
    ensures
        !a.app_state.slideshow_active ==> b.overlay.message() == Some("Slideshow started"@),
        a.app_state.slideshow_active ==> b.overlay.message() == Some("Slideshow paused"@),
        b.viewer == a.viewer,
{
}

/// A slideshow that has moved waits for a whole interval before it moves again, and then it does.
/// It goes through the photos one by one, and from the last to the first.
pub proof fn slideshows_move_once_an_interval(
    a: ActionContext,
    b: ActionContext,
    c: ActionContext,
    now: u64,
    later: u64,
    interval: u64,
    t: Tick,
    u: Tick,
)
    requires
        slideshow_ticks(a, b, now, interval, t),
        slideshow_ticks(b, c, later, interval, u),
        t is Moved,
        interval > 0,
    ensures
        later < now + interval ==> u is Wait && c == b,
        later >= now + interval ==> u is Moved,
        now <= later < now + interval ==> later + u->Wait_0 == now + interval,
        a.display@.len() > 0 && a.viewer.focus() + 1 < a.display@.len() ==> b.viewer.focus()
            == a.viewer.focus() + 1,
        a.display@.len() > 0 && a.viewer.focus() + 1 == a.display@.len() ==> b.viewer.focus() == 0,
{
}

/// A filter for all photos goes from each to the one after it, and ends after the last; it stops
/// where one fails.
pub proof fn all_photos_get_their_turn(index: usize, n: nat)
    requires
        index < n <= usize::MAX,
    ensures
        index + 1 < n ==> next_of_all(index, n, false) == Some((index + 1) as usize),
        index + 1 == n ==> next_of_all(index, n, false) is None,
        next_of_all(index, n, true) is None,
{
}

/// A photo is given its own size once: asking again without a new request changes nothing.
pub proof fn own_size_is_shown_once(
    a: ActionContext,
    b: ActionContext,
    c: ActionContext,
    scale: Scalar,
    other: Scalar,
)
    requires
        own_size_is_shown(a, b, scale),
        own_size_is_shown(b, c, other),
    ensures
        c == b,
        b.viewer.focus() == a.viewer.focus(),
        a.viewer is Single && a.app_state.zoom_to_one_pending ==> c.viewer->Single_0.zoom == scale
            && c.viewer->Single_0.pan.x.bits == 0 && c.viewer->Single_0.pan.y.bits == 0,
        !a.app_state.zoom_to_one_pending ==> c == a,
{
}

/// Putting the focus on a photo puts it there. A grid keeps its dimension, and a single photo its
/// zoom and its place.
pub proof fn refocusing_keeps_the_rest(v: ViewerState, index: usize)
    requires
        v.wf(),
    ensures
        v.refocused(index).focus() == index,
        v matches ViewerState::Tiling(s) ==> v.refocused(index) is Tiling && v.refocused(
            index,
        )->Tiling_0.cols == s.cols,
        v matches ViewerState::Single(s) ==> v.refocused(index) is Single && v.refocused(
            index,
        )->Single_0.zoom == s.zoom && v.refocused(index)->Single_0.pan == s.pan,
{
    if let ViewerState::Tiling(s) = v {
        lemma_focused_on(s, index as int);
    }
}

} // verus!
