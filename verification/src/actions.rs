//! What actions do.
//!
//! Files are written, scripts run and fractions computed elsewhere: an action says what is to be
//! done, and is told what came of it.
use crate::binding::{Action, ActionView};
use crate::collection::{fits_gallery, is_updated, PhotoCollection};
use crate::filters::{
    self, compose_filters, composed, may_stack, merge_arithmetic, numbers_of, stack_arithmetic,
    stack_description, stacked, Arithmetic, Filter,
};
use crate::gallery::{text_of, BackgroundColor, DataView};
use crate::image_cache::ImageCache;
use crate::overlay::OverlayState;
use crate::pixels::FilterRun;
use crate::scalar::Scalar;
use crate::template::{expand_template, expanded};
use crate::text::{self, decimal_text};
use crate::viewer::{has_room, Direction, ModeTarget, SingleState, ViewerState};
use vstd::prelude::*;

verus! {

broadcast use vstd::string::group_string_axioms;

/// What came of a script.
#[derive(Debug)]
pub struct ScriptResult {
    pub output: String,
    pub success: bool,
}

/// A script to be run.
#[derive(Debug)]
pub struct ScriptRequest {
    pub script_path: String,
    pub script_args: Vec<String>,
    /// What the script is to read.
    pub stdin_content: Option<String>,
}

/// The state of the application as a whole.
#[derive(Debug, Clone, Copy, PartialEq, Eq, Structural)]
pub struct AppState {
    pub should_quit: bool,
    pub slideshow_active: bool,
    /// When the slideshow last moved on, in nanoseconds.
    pub slideshow_last_at: u64,
    pub script_running: bool,
    pub filter_sidebar_open: bool,
    pub background_color: BackgroundColor,
    pub show_histogram: bool,
    pub needs_scroll_to_selection: bool,
    pub is_fullscreen: bool,
    /// The window is to fill the screen, or not to, from the next frame on.
    pub fullscreen_pending: Option<bool>,
    /// The next frame is to show each pixel of the photo as one pixel of the screen.
    pub zoom_to_one_pending: bool,
    pub show_annotations: bool,
}

impl AppState {
    /// The state at the start.
    pub open spec fn initial(now: u64) -> AppState {
        AppState {
            should_quit: false,
            slideshow_active: false,
            slideshow_last_at: now,
            script_running: false,
            filter_sidebar_open: false,
            background_color: BackgroundColor::Black,
            show_histogram: false,
            needs_scroll_to_selection: false,
            is_fullscreen: false,
            fullscreen_pending: None,
            zoom_to_one_pending: false,
            show_annotations: false,
        }
    }

    /// The state at the start.
    pub fn new(now: u64) -> (s: Self)
        ensures
            s == AppState::initial(now),
    {
        AppState {
            should_quit: false,
            slideshow_active: false,
            slideshow_last_at: now,
            script_running: false,
            filter_sidebar_open: false,
            background_color: BackgroundColor::Black,
            show_histogram: false,
            needs_scroll_to_selection: false,
            is_fullscreen: false,
            fullscreen_pending: None,
            zoom_to_one_pending: false,
            show_annotations: false,
        }
    }
}

/// All that actions act on.
pub struct ActionContext {
    pub collection: PhotoCollection,
    pub viewer: ViewerState,
    pub cache: ImageCache,
    pub overlay: OverlayState,
    pub app_state: AppState,
    /// How many tiles the grid is to have room for.
    pub tile_count: usize,
    /// The photos that are shown, by their places in the collection.
    pub display: Vec<usize>,
}

impl ActionContext {
    /// The photos that are shown exist, and the one in focus is one of them.
    pub open spec fn wf(self) -> bool {
        &&& self.collection.wf()
        &&& self.viewer.wf()
        &&& self.cache@.wf()
        &&& has_room(self.tile_count as int)
        &&& forall|i: int|
            0 <= i < self.display@.len() ==> (#[trigger] self.display@[i])
                < self.collection.photos().len()
        &&& self.display@.len() > 0 ==> self.viewer.focus() < self.display@.len()
    }

    /// The place of the photo in focus in the collection.
    pub open spec fn focused(self) -> int {
        self.display@[self.viewer.focus()] as int
    }

    /// The data of the photo in focus.
    pub open spec fn focused_data(self) -> DataView {
        self.collection.photos()[self.focused()].data
    }

    /// The place of the photo in focus in the collection.
    pub fn focused_photo(&self) -> (i: usize)
        requires
            self.wf(),
            self.display@.len() > 0,
        ensures
            i == self.focused(),
            i < self.collection.photos().len(),
    {
        self.display[self.viewer.focused_index()]
    }
}

/// What an action has to be told before it can be done.
#[derive(Debug, Clone, Copy, PartialEq, Eq, Structural)]
pub enum Work {
    Nothing,
    /// The zoom times 1.25 to the power of `delta`.
    Zoom { zoom: Scalar, delta: Scalar },
    /// The zoom times 1.25 to the power of a whole number.
    ZoomSteps { zoom: Scalar, steps: i32 },
    /// The whole part of `delta`, by which the grid is to change.
    GridSteps { delta: Scalar },
    Merge(Arithmetic),
}

/// What an action was told.
#[derive(Debug)]
pub struct ActionInput {
    /// The new zoom.
    pub scaled: Scalar,
    /// The steps by which the grid is to change.
    pub steps: i32,
    /// The sum or product of the amounts of two filters.
    pub combined: Scalar,
    /// The absolute paths of the photos in the gallery file of the photo in focus.
    pub canon: Vec<String>,
}

/// What is to be done after an action.
#[derive(Debug)]
pub enum Effect {
    Nothing,
    /// The gallery file at `path` is to be written; `rating_failed` follows where that fails.
    SaveRating { path: String },
    /// The gallery file at `save`, if any, is to be written; `filter_settled` follows.
    Filtered { index: usize, save: Option<String> },
    /// A filter is to be applied to each photo in turn, with `apply_to_one` and
    /// `filter_all_settled`.
    FilterAll,
    /// A script is to be run on the photo at `index`.
    RunScript { index: usize },
}

/// The rating after `current` among `values`, which are gone through in order, and then none.
pub open spec fn next_rating(current: Option<u8>, values: Seq<u8>) -> Option<u8> {
    match current {
        None => Some(values[0]),
        Some(v) => if values.contains(v) {
            let i = first_place(values, v);
            if i + 1 >= values.len() {
                None
            } else {
                Some(values[i + 1])
            }
        } else {
            Some(values[0])
        },
    }
}

/// The first place of `v` in `values`; their number where there is none.
pub open spec fn first_place(values: Seq<u8>, v: u8) -> int
    decreases values.len(),
{
    if values.len() == 0 || values[0] == v {
        0
    } else {
        1 + first_place(values.drop_first(), v)
    }
}

proof fn lemma_first_place(values: Seq<u8>, v: u8, i: int)
    requires
        0 <= i < values.len(),
        values[i] == v,
        forall|k: int| 0 <= k < i ==> #[trigger] values[k] != v,
    ensures
        first_place(values, v) == i,
    decreases values.len(),
{
    if i > 0 {
        let rest = values.drop_first();
        assert(values[0] != v);
        assert forall|k: int| 0 <= k < i - 1 implies #[trigger] rest[k] != v by {
            assert(rest[k] == values[k + 1]);
        }
        lemma_first_place(rest, v, i - 1);
    }
}

/// The rating after `current` among `values`, which are gone through in order, and then none. A
/// rating that is not among them starts anew.
pub fn next_cycle_value(current: Option<u8>, values: &[u8]) -> (r: Option<u8>)
    requires
        values@.len() > 0,
    ensures
        r == next_rating(current, values@),
{
    match current {
        None => Some(values[0]),
        Some(v) => {
            let n = values.len();
            let mut i: usize = 0;
            while i < n
                invariant
                    i <= n == values@.len(),
                    n > 0,
                    current == Some(v),
                    forall|k: int| 0 <= k < i ==> #[trigger] values@[k] != v,
                decreases n - i,
            {
                if values[i] == v {
                    proof {
                        lemma_first_place(values@, v, i as int);
                    }
                    return if i + 1 >= n {
                        None
                    } else {
                        Some(values[i + 1])
                    };
                }
                i += 1;
            }
            Some(values[0])
        },
    }
}

/// The rating after `n` steps from `current`.
pub open spec fn rating_after(current: Option<u8>, values: Seq<u8>, n: nat) -> Option<u8>
    decreases n,
{
    if n == 0 {
        current
    } else {
        next_rating(rating_after(current, values, (n - 1) as nat), values)
    }
}

/// From no rating the steps lead through all the values, each once, and back to none.
pub proof fn ratings_come_round(values: Seq<u8>, n: nat)
    requires
        values.len() > 0,
        values.no_duplicates(),
        n <= values.len() + 1,
    ensures
        rating_after(None, values, n) == if n == 0 || n == values.len() + 1 {
            None
        } else {
            Some(values[n - 1])
        },
    decreases n,
{
    if n > 0 {
        ratings_come_round(values, (n - 1) as nat);
        if n > 1 {
            let v = values[n - 2];
            assert(values.contains(v));
            lemma_first_place(values, v, n - 2);
        }
    }
}

/// What an action has to be told before it can be done.
pub open spec fn work_of(action: ActionView, cx: ActionContext) -> Work {
    match action {
        ActionView::ZoomTiling { delta } => match cx.viewer {
            ViewerState::Single(s) => Work::ZoomSteps { zoom: s.zoom, steps: delta },
            ViewerState::Tiling(_) => Work::Nothing,
        },
        ActionView::ZoomSingle { delta } => match cx.viewer {
            ViewerState::Single(s) => Work::Zoom { zoom: s.zoom, delta },
            ViewerState::Tiling(_) => Work::GridSteps { delta },
        },
        ActionView::ApplyFilter { filter } => if cx.display@.len() == 0 {
            Work::Nothing
        } else if cx.focused_data().filters.len() == 0 {
            Work::Merge(Arithmetic::Nothing)
        } else {
            Work::Merge(merge_arithmetic(cx.focused_data().filters.last(), filter))
        },
        _ => Work::Nothing,
    }
}

/// What an action has to be told before it can be done.
pub fn work_for(action: &Action, cx: &ActionContext) -> (w: Work)
    requires
        cx.wf(),
    ensures
        w == work_of(action.deep_view(), *cx),
{
    match action {
        Action::ZoomTiling { delta } => match &cx.viewer {
            ViewerState::Single(s) => Work::ZoomSteps { zoom: s.zoom, steps: *delta },
            ViewerState::Tiling(_) => Work::Nothing,
        },
        Action::ZoomSingle { delta } => match &cx.viewer {
            ViewerState::Single(s) => Work::Zoom { zoom: s.zoom, delta: *delta },
            ViewerState::Tiling(_) => Work::GridSteps { delta: *delta },
        },
        Action::ApplyFilter { filter } => {
            if cx.display.len() == 0 {
                return Work::Nothing;
            }
            let i = cx.focused_photo();
            Work::Merge(stack_arithmetic(&cx.collection.entries[i].data.filters, filter))
        },
        _ => Work::Nothing,
    }
}

/// The grid can change by `steps`.
pub open spec fn may_regrid(viewer: ViewerState, steps: i32) -> bool {
    viewer matches ViewerState::Tiling(s) ==> s.cols <= i32::MAX && i32::MIN <= s.cols - steps
        <= i32::MAX
}

/// Whether the grid can change by `steps`.
fn can_regrid(viewer: &ViewerState, steps: i32) -> (b: bool)
    ensures
        b == may_regrid(*viewer, steps),
{
    match viewer {
        ViewerState::Tiling(s) => s.cols <= i32::MAX as usize && (s.cols as i32).checked_sub(
            steps,
        ).is_some(),
        ViewerState::Single(_) => true,
    }
}

/// The numbers of an action fit the machine, and what it was told fits the photo in focus.
pub open spec fn may_execute(action: ActionView, cx: ActionContext, input: ActionInput) -> bool {
    match action {
        ActionView::Navigate { direction, count } => cx.viewer.may_navigate(
            direction,
            count,
            cx.display@.len() as int,
        ),
        ActionView::ZoomTiling { delta } => may_regrid(cx.viewer, delta),
        ActionView::ZoomSingle { .. } => may_regrid(cx.viewer, input.steps),
        ActionView::CycleRating { .. } => cx.display@.len() > 0 ==> fits_gallery(
            cx.collection,
            cx.focused(),
            input.canon@.len(),
        ),
        ActionView::ApplyFilter { filter } => cx.display@.len() > 0 ==> fits_gallery(
            cx.collection,
            cx.focused(),
            input.canon@.len(),
        ) && may_stack(cx.focused_data().filters, filter),
        _ => true,
    }
}

/// Whether an action can be done with what it was told.
pub fn can_execute(action: &Action, cx: &ActionContext, input: &ActionInput) -> (b: bool)
    requires
        cx.wf(),
    ensures
        b == may_execute(action.deep_view(), *cx, *input),
{
    match action {
        Action::Navigate { direction, count } => cx.viewer.can_navigate(
            *direction,
            *count,
            cx.display.len(),
        ),
        Action::ZoomTiling { delta } => can_regrid(&cx.viewer, *delta),
        Action::ZoomSingle { .. } => can_regrid(&cx.viewer, input.steps),
        Action::CycleRating { .. } => cx.display.len() == 0 || cx.collection.fits(
            cx.focused_photo(),
            input.canon.len(),
        ),
        Action::ApplyFilter { filter } => {
            if cx.display.len() == 0 {
                return true;
            }
            let index = cx.focused_photo();
            assert(cx.collection.photos()[index as int]
                == cx.collection.entries@[index as int].deep_view());
            cx.collection.fits(index, input.canon.len()) && filters::can_stack(
                &cx.collection.entries[index].data.filters,
                filter,
            )
        },
        _ => true,
    }
}

/// The contexts differ in nothing but the viewer and the state of the application.
pub open spec fn same_photos(a: ActionContext, b: ActionContext) -> bool {
    &&& a.collection == b.collection
    &&& a.cache == b.cache
    &&& a.tile_count == b.tile_count
    &&& a.display == b.display
}

/// The contexts differ in nothing but the state of the application, which in `b` is `state`.
pub open spec fn only_state(a: ActionContext, b: ActionContext, state: AppState) -> bool {
    &&& same_photos(a, b)
    &&& a.viewer == b.viewer
    &&& a.overlay == b.overlay
    &&& b.app_state == state
}

/// The contexts differ in nothing but the viewer, which in `b` is `viewer`.
pub open spec fn only_viewer(a: ActionContext, b: ActionContext, viewer: ViewerState) -> bool {
    &&& same_photos(a, b)
    &&& a.overlay == b.overlay
    &&& a.app_state == b.app_state
    &&& b.viewer == viewer
}

/// The contexts differ in nothing but that `b` says `text`.
pub open spec fn only_says(a: ActionContext, b: ActionContext, text: Seq<char>, now: u64) -> bool {
    &&& same_photos(a, b)
    &&& a.viewer == b.viewer
    &&& a.app_state == b.app_state
    &&& b.overlay.says(a.overlay, text, now)
}

/// Where the focus goes when it moves by one row of `cols` photos: not beyond the last photo, nor
/// before the first.
pub open spec fn row_target(current: int, cols: int, dir: Direction, total: int) -> int {
    match dir {
        Direction::Next => if current + cols <= total - 1 {
            current + cols
        } else {
            total - 1
        },
        Direction::Prev => if current >= cols {
            current - cols
        } else {
            0
        },
    }
}

/// `b` is `a` with `data` noted for the photo in focus; `save` is the gallery file to be written.
pub open spec fn notes_data(
    a: ActionContext,
    b: ActionContext,
    data: DataView,
    canon: Seq<Seq<char>>,
    save: Option<Seq<char>>,
) -> bool {
    &&& is_updated(a.collection, b.collection, a.focused(), data, canon, save)
    &&& a.viewer == b.viewer
    &&& a.cache == b.cache
    &&& a.overlay == b.overlay
    &&& a.app_state == b.app_state
    &&& a.tile_count == b.tile_count
    &&& a.display == b.display
}

/// `b` and `effect` are what an action makes of `a`.
pub open spec fn executed(
    action: ActionView,
    a: ActionContext,
    input: ActionInput,
    now: u64,
    b: ActionContext,
    effect: Effect,
) -> bool {
    let total = a.display@.len() as int;
    match action {
        ActionView::Navigate { direction, count } => {
            &&& effect is Nothing
            &&& same_photos(a, b)
            &&& a.overlay == b.overlay
            &&& b.viewer == a.viewer.navigated(direction, count as int, total)
            &&& b.app_state == AppState {
                slideshow_last_at: now,
                needs_scroll_to_selection: a.app_state.needs_scroll_to_selection || b.viewer
                    is Tiling,
                ..a.app_state
            }
        },
        ActionView::ZoomTiling { delta } => {
            &&& effect is Nothing
            &&& only_viewer(
                a,
                b,
                if a.viewer is Single {
                    a.viewer.zoomed(input.scaled)
                } else {
                    a.viewer.regridded(delta as int, total)
                },
            )
        },
        ActionView::SwitchMode { mode } => {
            &&& effect is Nothing
            &&& only_viewer(a, b, b.viewer)
            &&& match mode {
                ModeTarget::Tiling => a.viewer.becomes_grid(a.tile_count as int, b.viewer),
                ModeTarget::Single => b.viewer == ViewerState::Single(
                    SingleState::fitted_spec(a.viewer.focus() as usize),
                ),
                ModeTarget::Toggle => if a.viewer is Single {
                    a.viewer.becomes_grid(a.tile_count as int, b.viewer)
                } else {
                    b.viewer == ViewerState::Single(
                        SingleState::fitted_spec(a.viewer.focus() as usize),
                    )
                },
            }
        },
        ActionView::ToggleSlideshow => {
            &&& effect is Nothing
            &&& same_photos(a, b)
            &&& a.viewer == b.viewer
            &&& b.app_state == AppState {
                slideshow_active: !a.app_state.slideshow_active,
                slideshow_last_at: now,
                ..a.app_state
            }
            &&& b.overlay.says(
                a.overlay,
                if b.app_state.slideshow_active {
                    "Slideshow started"@
                } else {
                    "Slideshow paused"@
                },
                now,
            )
        },
        ActionView::ToggleFilterSidebar => {
            &&& effect is Nothing
            &&& only_state(
                a,
                b,
                AppState {
                    filter_sidebar_open: !a.app_state.filter_sidebar_open,
                    ..a.app_state
                },
            )
        },
        ActionView::Quit => {
            &&& effect is Nothing
            &&& only_state(a, b, AppState { should_quit: true, ..a.app_state })
        },
        ActionView::CycleRating { values } => if total == 0 || values.len() == 0 {
            effect is Nothing && a == b
        } else {
            let data = DataView {
                rating: next_rating(a.focused_data().rating, values),
                ..a.focused_data()
            };
            match effect {
                Effect::Nothing => notes_data(a, b, data, input.canon.deep_view(), None),
                Effect::SaveRating { path } => notes_data(
                    a,
                    b,
                    data,
                    input.canon.deep_view(),
                    Some(path@),
                ),
                _ => false,
            }
        },
        ActionView::RunScript { .. } => if a.app_state.script_running {
            effect is Nothing && only_says(a, b, "Script already running"@, now)
        } else if total == 0 {
            effect is Nothing && only_says(a, b, "No photo selected"@, now)
        } else {
            effect == Effect::RunScript { index: a.focused() as usize } && a == b
        },
        ActionView::ApplyFilter { filter } => if total == 0 {
            effect is Nothing && a == b
        } else {
            let data = DataView {
                filters: stacked(a.focused_data().filters, filter, input.combined),
                ..a.focused_data()
            };
            effect matches Effect::Filtered { index, save } && index == a.focused() && notes_data(
                a,
                b,
                data,
                input.canon.deep_view(),
                text_of(save),
            )
        },
        ActionView::ToggleHistogram => {
            &&& effect is Nothing
            &&& only_state(
                a,
                b,
                AppState { show_histogram: !a.app_state.show_histogram, ..a.app_state },
            )
        },
        ActionView::ZoomSingle { .. } => {
            &&& effect is Nothing
            &&& only_viewer(
                a,
                b,
                if a.viewer is Single {
                    a.viewer.zoomed(input.scaled)
                } else {
                    a.viewer.regridded(input.steps as int, total)
                },
            )
        },
        ActionView::ZoomSingleFit => {
            &&& effect is Nothing
            &&& only_viewer(a, b, a.viewer.fitted_again())
        },
        ActionView::ZoomSingleToOne => {
            &&& effect is Nothing
            &&& only_state(a, b, AppState { zoom_to_one_pending: true, ..a.app_state })
        },
        ActionView::ToggleFullscreen => {
            &&& effect is Nothing
            &&& only_state(
                a,
                b,
                AppState {
                    is_fullscreen: !a.app_state.is_fullscreen,
                    fullscreen_pending: Some(!a.app_state.is_fullscreen),
                    ..a.app_state
                },
            )
        },
        ActionView::ApplyFilterToAll { .. } => a == b && if a.collection.photos().len() == 0 {
            effect is Nothing
        } else {
            effect is FilterAll
        },
        ActionView::NavigateTilingRow { direction } => {
            &&& effect is Nothing
            &&& match a.viewer {
                ViewerState::Tiling(s) => if total == 0 {
                    a == b
                } else {
                    &&& same_photos(a, b)
                    &&& a.overlay == b.overlay
                    &&& b.viewer == ViewerState::Tiling(
                        s.focused_on(row_target(s.focus(), s.cols as int, direction, total)),
                    )
                    &&& b.app_state == AppState { needs_scroll_to_selection: true, ..a.app_state }
                },
                ViewerState::Single(_) => a == b,
            }
        },
        _ => effect is Nothing && a == b,
    }
}

fn handle_navigate(
    direction: Direction,
    count: usize,
    cx: &mut ActionContext,
    input: &ActionInput,
    now: u64,
) -> (effect: Effect)
    requires
        old(cx).wf(),
        may_execute(ActionView::Navigate { direction, count }, *old(cx), *input),
    ensures
        final(cx).wf(),
        executed(
            ActionView::Navigate { direction, count },
            *old(cx),
            *input,
            now,
            *final(cx),
            effect,
        ),
{
    let total = cx.display.len();
    cx.viewer.navigate(direction, count, total);
    cx.app_state.slideshow_last_at = now;
    if matches!(cx.viewer, ViewerState::Tiling(_)) {
        cx.app_state.needs_scroll_to_selection = true;
    }
    Effect::Nothing
}

fn handle_navigate_row(
    direction: Direction,
    cx: &mut ActionContext,
    input: &ActionInput,
    now: u64,
) -> (effect: Effect)
    requires
        old(cx).wf(),
    ensures
        final(cx).wf(),
        executed(
            ActionView::NavigateTilingRow { direction },
            *old(cx),
            *input,
            now,
            *final(cx),
            effect,
        ),
{
    let total = cx.display.len();
    if total == 0 {
        return Effect::Nothing;
    }
    if let ViewerState::Tiling(s) = cx.viewer {
        let current = s.focused_abs();
        let target = match direction {
            Direction::Next => {
                if s.cols <= total - 1 - current {
                    current + s.cols
                } else {
                    total - 1
                }
            },
            Direction::Prev => {
                if current >= s.cols {
                    current - s.cols
                } else {
                    0
                }
            },
        };
        cx.viewer.refocus(target);
        cx.app_state.needs_scroll_to_selection = true;
    }
    Effect::Nothing
}

fn handle_switch_mode(mode: ModeTarget, cx: &mut ActionContext, input: &ActionInput, now: u64) -> (effect:
    Effect)
    requires
        old(cx).wf(),
    ensures
        final(cx).wf(),
        executed(ActionView::SwitchMode { mode }, *old(cx), *input, now, *final(cx), effect),
{
    let tile_count = cx.tile_count;
    match mode {
        ModeTarget::Tiling => cx.viewer.switch_to_tiling(tile_count),
        ModeTarget::Single => {
            let index = cx.viewer.focused_index();
            cx.viewer.switch_to_single(index);
        },
        ModeTarget::Toggle => cx.viewer.toggle(tile_count),
    }
    Effect::Nothing
}

fn handle_zoom_tiling(delta: i32, cx: &mut ActionContext, input: &ActionInput, now: u64) -> (effect:
    Effect)
    requires
        old(cx).wf(),
        may_execute(ActionView::ZoomTiling { delta }, *old(cx), *input),
    ensures
        final(cx).wf(),
        executed(ActionView::ZoomTiling { delta }, *old(cx), *input, now, *final(cx), effect),
{
    if matches!(cx.viewer, ViewerState::Single(_)) {
        cx.viewer.zoom_single(input.scaled);
    } else {
        let total = cx.display.len();
        cx.viewer.zoom_tiling(delta, total);
    }
    Effect::Nothing
}

fn handle_toggle_slideshow(cx: &mut ActionContext, input: &ActionInput, now: u64) -> (effect: Effect)
    requires
        old(cx).wf(),
    ensures
        final(cx).wf(),
        executed(ActionView::ToggleSlideshow, *old(cx), *input, now, *final(cx), effect),
{
    cx.app_state.slideshow_active = !cx.app_state.slideshow_active;
    cx.app_state.slideshow_last_at = now;
    let text = if cx.app_state.slideshow_active {
        "Slideshow started"
    } else {
        "Slideshow paused"
    };
    cx.overlay.push_toast(text.to_owned(), now);
    Effect::Nothing
}

fn handle_zoom_single(cx: &mut ActionContext, delta: Scalar, input: &ActionInput, now: u64) -> (effect:
    Effect)
    requires
        old(cx).wf(),
        may_execute(ActionView::ZoomSingle { delta }, *old(cx), *input),
    ensures
        final(cx).wf(),
        executed(ActionView::ZoomSingle { delta }, *old(cx), *input, now, *final(cx), effect),
{
    if matches!(cx.viewer, ViewerState::Single(_)) {
        cx.viewer.zoom_single(input.scaled);
    } else {
        let total = cx.display.len();
        cx.viewer.zoom_tiling(input.steps, total);
    }
    Effect::Nothing
}

fn handle_zoom_fit(cx: &mut ActionContext, input: &ActionInput, now: u64) -> (effect: Effect)
    requires
        old(cx).wf(),
    ensures
        final(cx).wf(),
        executed(ActionView::ZoomSingleFit, *old(cx), *input, now, *final(cx), effect),
{
    cx.viewer.reset_single_zoom();
    Effect::Nothing
}

/// Does an action. Changing the background, showing annotations and finding similar photos concern
/// more than is at hand here, and change nothing.
pub fn execute_action(action: &Action, cx: &mut ActionContext, input: &ActionInput, now: u64) -> (effect:
    Effect)
    requires
        old(cx).wf(),
        may_execute(action.deep_view(), *old(cx), *input),
    ensures
        final(cx).wf(),
        executed(action.deep_view(), *old(cx), *input, now, *final(cx), effect),
{
    match action {
        Action::Navigate { direction, count } => handle_navigate(
            *direction,
            *count,
            cx,
            input,
            now,
        ),
        Action::ZoomTiling { delta } => handle_zoom_tiling(*delta, cx, input, now),
        Action::SwitchMode { mode } => handle_switch_mode(*mode, cx, input, now),
        Action::ToggleSlideshow => handle_toggle_slideshow(cx, input, now),
        Action::ToggleFilterSidebar => {
            cx.app_state.filter_sidebar_open = !cx.app_state.filter_sidebar_open;
            Effect::Nothing
        },
        Action::Quit => {
            cx.app_state.should_quit = true;
            Effect::Nothing
        },
        Action::CycleRating { values } => handle_cycle_rating(values, cx, &input.canon),
        Action::RunScript { .. } => handle_run_script(cx, now),
        Action::ApplyFilter { filter } => handle_apply_filter(
            filter,
            cx,
            input.combined,
            &input.canon,
        ),
        Action::ToggleHistogram => {
            cx.app_state.show_histogram = !cx.app_state.show_histogram;
            Effect::Nothing
        },
        Action::ZoomSingle { delta } => handle_zoom_single(cx, *delta, input, now),
        Action::ZoomSingleFit => handle_zoom_fit(cx, input, now),
        Action::ZoomSingleToOne => {
            cx.app_state.zoom_to_one_pending = true;
            Effect::Nothing
        },
        Action::ToggleFullscreen => {
            let full = !cx.app_state.is_fullscreen;
            cx.app_state.is_fullscreen = full;
            cx.app_state.fullscreen_pending = Some(full);
            Effect::Nothing
        },
        Action::ApplyFilterToAll { .. } => {
            if cx.collection.is_empty() {
                Effect::Nothing
            } else {
                Effect::FilterAll
            }
        },
        Action::NavigateTilingRow { direction } => handle_navigate_row(*direction, cx, input, now),
        _ => Effect::Nothing,
    }
}

fn handle_cycle_rating(values: &Vec<u8>, cx: &mut ActionContext, canon: &Vec<String>) -> (effect:
    Effect)
    requires
        old(cx).wf(),
        old(cx).display@.len() > 0 ==> fits_gallery(
            old(cx).collection,
            old(cx).focused(),
            canon@.len(),
        ),
    ensures
        final(cx).wf(),
        old(cx).display@.len() == 0 || values@.len() == 0 ==> effect is Nothing && *final(cx)
            == *old(cx),
        old(cx).display@.len() > 0 && values@.len() > 0 ==> {
            let data = DataView {
                rating: next_rating(old(cx).focused_data().rating, values@),
                ..old(cx).focused_data()
            };
            match effect {
                Effect::Nothing => notes_data(
                    *old(cx),
                    *final(cx),
                    data,
                    canon.deep_view(),
                    None,
                ),
                Effect::SaveRating { path } => notes_data(
                    *old(cx),
                    *final(cx),
                    data,
                    canon.deep_view(),
                    Some(path@),
                ),
                _ => false,
            }
        },
{
    if cx.display.len() == 0 || values.len() == 0 {
        return Effect::Nothing;
    }
    let index = cx.focused_photo();
    assert(cx.collection.photos()[index as int] == cx.collection.entries@[index as int].deep_view());
    let mut data = cx.collection.entries[index].data.clone();
    data.rating = next_cycle_value(data.rating, values.as_slice());
    match cx.collection.update_data(index, data, canon) {
        Some(path) => Effect::SaveRating { path },
        None => Effect::Nothing,
    }
}

fn handle_run_script(cx: &mut ActionContext, now: u64) -> (effect: Effect)
    requires
        old(cx).wf(),
    ensures
        final(cx).wf(),
        if old(cx).app_state.script_running {
            effect is Nothing && only_says(*old(cx), *final(cx), "Script already running"@, now)
        } else if old(cx).display@.len() == 0 {
            effect is Nothing && only_says(*old(cx), *final(cx), "No photo selected"@, now)
        } else {
            effect == (Effect::RunScript { index: old(cx).focused() as usize }) && *final(cx)
                == *old(cx)
        },
{
    if cx.app_state.script_running {
        cx.overlay.push_toast("Script already running".to_owned(), now);
        return Effect::Nothing;
    }
    if cx.display.len() == 0 {
        cx.overlay.push_toast("No photo selected".to_owned(), now);
        return Effect::Nothing;
    }
    Effect::RunScript { index: cx.focused_photo() }
}

fn handle_apply_filter(
    incoming: &Filter,
    cx: &mut ActionContext,
    combined: Scalar,
    canon: &Vec<String>,
) -> (effect: Effect)
    requires
        old(cx).wf(),
        old(cx).display@.len() > 0 ==> fits_gallery(
            old(cx).collection,
            old(cx).focused(),
            canon@.len(),
        ) && may_stack(old(cx).focused_data().filters, incoming.deep_view()),
    ensures
        final(cx).wf(),
        old(cx).display@.len() == 0 ==> effect is Nothing && *final(cx) == *old(cx),
        old(cx).display@.len() > 0 ==> (effect matches Effect::Filtered { index, save } && index
            == old(cx).focused() && notes_data(
            *old(cx),
            *final(cx),
            DataView {
                filters: stacked(
                    old(cx).focused_data().filters,
                    incoming.deep_view(),
                    combined,
                ),
                ..old(cx).focused_data()
            },
            canon.deep_view(),
            text_of(save),
        )),
{
    if cx.display.len() == 0 {
        return Effect::Nothing;
    }
    let index = cx.focused_photo();
    assert(cx.collection.photos()[index as int] == cx.collection.entries@[index as int].deep_view());
    let mut data = cx.collection.entries[index].data.clone();
    filters::apply_to_stack(&mut data.filters, incoming.clone(), combined);
    let save = cx.collection.update_data(index, data, canon);
    Effect::Filtered { index, save }
}

/// Says that a rating could not be kept.
pub fn rating_failed(cx: &mut ActionContext, error: &str, now: u64)
    requires
        old(cx).wf(),
    ensures
        final(cx).wf(),
        only_says(*old(cx), *final(cx), "Rating error: "@ + error@, now),
{
    let mut text = "Rating error: ".to_owned();
    text.append(error);
    cx.overlay.push_toast(text, now);
}

/// `b` is `a` with all on the photo at `index` forgotten by the cache, and saying `text`.
pub open spec fn forgets(
    a: ActionContext,
    b: ActionContext,
    index: usize,
    text: Seq<char>,
    now: u64,
) -> bool {
    &&& a.collection == b.collection
    &&& a.viewer == b.viewer
    &&& a.app_state == b.app_state
    &&& a.tile_count == b.tile_count
    &&& a.display == b.display
    &&& b.cache@ == a.cache@.forgetting(index)
    &&& b.overlay.says(a.overlay, text, now)
}

/// Follows the application of a filter: has the photo decoded anew, and says what failed, or what its
/// filters do. `numbers` holds the numbers of the photo's filters written out.
pub fn filter_settled(
    cx: &mut ActionContext,
    index: usize,
    error: Option<String>,
    numbers: &Vec<Vec<String>>,
    now: u64,
)
    requires
        old(cx).wf(),
        index < old(cx).collection.photos().len(),
        error is None ==> {
            let stack = old(cx).collection.photos()[index as int].data.filters;
            &&& numbers@.len() == stack.len()
            &&& forall|i: int|
                0 <= i < stack.len() ==> (#[trigger] numbers@[i])@.len() == numbers_of(
                    stack[i],
                ).len()
        },
    ensures
        final(cx).wf(),
        match error {
            Some(e) => forgets(*old(cx), *final(cx), index, "Filter error: "@ + e@, now),
            None => forgets(
                *old(cx),
                *final(cx),
                index,
                stack_description(
                    old(cx).collection.photos()[index as int].data.filters,
                    numbers.deep_view(),
                ),
                now,
            ),
        },
{
    match error {
        Some(e) => {
            let mut text = "Filter error: ".to_owned();
            text.append(e.as_str());
            cx.cache.invalidate(index);
            cx.overlay.push_toast(text, now);
        },
        None => {
            let ghost stack = cx.collection.photos()[index as int].data.filters;
            let own = &cx.collection.entries[index].data.filters;
            assert(own.deep_view() == stack);
            assert forall|i: int| 0 <= i < own@.len() implies (#[trigger] numbers@[i])@.len()
                == numbers_of(own@[i].deep_view()).len() by {
                assert(own.deep_view()[i] == own@[i].deep_view());
            }
            let text = filters::filter_description(own, numbers);
            cx.cache.invalidate(index);
            cx.overlay.push_toast(text, now);
        },
    }
}

/// Applies a filter to one photo of all. Returns the path of the gallery file to be written, if
/// any; `filter_all_settled` follows.
pub fn apply_to_one(
    cx: &mut ActionContext,
    index: usize,
    incoming: &Filter,
    combined: Scalar,
    canon: &Vec<String>,
) -> (save: Option<String>)
    requires
        old(cx).wf(),
        index < old(cx).collection.photos().len(),
        fits_gallery(old(cx).collection, index as int, canon@.len()),
        may_stack(
            old(cx).collection.photos()[index as int].data.filters,
            incoming.deep_view(),
        ),
    ensures
        final(cx).wf(),
        is_updated(
            old(cx).collection,
            final(cx).collection,
            index as int,
            DataView {
                filters: stacked(
                    old(cx).collection.photos()[index as int].data.filters,
                    incoming.deep_view(),
                    combined,
                ),
                ..old(cx).collection.photos()[index as int].data
            },
            canon.deep_view(),
            text_of(save),
        ),
        final(cx).viewer == old(cx).viewer,
        final(cx).cache == old(cx).cache,
        final(cx).overlay == old(cx).overlay,
        final(cx).app_state == old(cx).app_state,
        final(cx).tile_count == old(cx).tile_count,
        final(cx).display == old(cx).display,
{
    assert(cx.collection.photos()[index as int] == cx.collection.entries@[index as int].deep_view());
    let mut data = cx.collection.entries[index].data.clone();
    filters::apply_to_stack(&mut data.filters, incoming.clone(), combined);
    cx.collection.update_data(index, data, canon)
}

/// The photo after the one at `index` to apply a filter to, of `n`; none after the last, nor after one that
/// failed.
pub open spec fn next_of_all(index: usize, n: nat, failed: bool) -> Option<usize> {
    if !failed && index + 1 < n {
        Some((index + 1) as usize)
    } else {
        None
    }
}

/// Follows the application of a filter to one photo of all: has the photo decoded anew, and says what
/// failed. Returns the photo that is next; after the last one, says how many there were.
pub fn filter_all_settled(
    cx: &mut ActionContext,
    index: usize,
    error: Option<String>,
    now: u64,
) -> (next: Option<usize>)
    requires
        old(cx).wf(),
        index < old(cx).collection.photos().len(),
    ensures
        final(cx).wf(),
        ({
            let n = old(cx).collection.photos().len();
            match error {
                Some(e) => next is None && forgets(
                    *old(cx),
                    *final(cx),
                    index,
                    "Filter error at "@ + decimal_text(index as nat) + ": "@ + e@,
                    now,
                ),
                None => if index + 1 < n {
                    &&& next == Some((index + 1) as usize)
                    &&& final(cx).cache@ == old(cx).cache@.forgetting(index)
                    &&& final(cx).collection == old(cx).collection
                    &&& final(cx).viewer == old(cx).viewer
                    &&& final(cx).overlay == old(cx).overlay
                    &&& final(cx).app_state == old(cx).app_state
                    &&& final(cx).tile_count == old(cx).tile_count
                    &&& final(cx).display == old(cx).display
                } else {
                    &&& next is None
                    &&& forgets(
                        *old(cx),
                        *final(cx),
                        index,
                        "Applied filter to "@ + decimal_text(n) + " photos"@,
                        now,
                    )
                },
            }
        }),
        next == next_of_all(index, old(cx).collection.photos().len(), error is Some),
{
    cx.cache.invalidate(index);
    match error {
        Some(e) => {
            let mut text = "Filter error at ".to_owned();
            text.append(text::decimal(index as u64).as_str());
            text.append(": ");
            text.append(e.as_str());
            cx.overlay.push_toast(text, now);
            None
        },
        None => {
            let n = cx.collection.len();
            if index + 1 < n {
                Some(index + 1)
            } else {
                let mut text = "Applied filter to ".to_owned();
                text.append(text::decimal(n as u64).as_str());
                text.append(" photos");
                cx.overlay.push_toast(text, now);
                None
            }
        },
    }
}

/// The size of a photo as it is shown, after the turn that its file asks for and all of its filters.
pub fn displayed_dimensions(run: &FilterRun) -> (r: (u32, u32))
    requires
        run.wf(),
        run.applied() == run.stack().len(),
    ensures
        r == (run.image().width, run.image().height),
{
    let img = run.current();
    (img.width, img.height)
}

/// The filters that a script is told of: those of the gallery around those of the photo.
pub fn script_filters(cx: &ActionContext, index: usize) -> (r: Vec<Filter>)
    requires
        cx.wf(),
        index < cx.collection.photos().len(),
    ensures
        r.deep_view() == composed(
            cx.collection.photos()[index as int].data.filters,
            cx.collection.around(),
        ),
{
    let gallery = cx.collection.galerie_filters();
    assert(cx.collection.photos()[index as int] == cx.collection.entries@[index as int].deep_view());
    compose_filters(&cx.collection.entries[index].data.filters, &gallery)
}

/// What an action that runs a script writes on its command line, for a photo at `path` that is shown
/// with `width` times `height` pixels.
pub open spec fn script_arguments(
    action: ActionView,
    path: Seq<char>,
    width: nat,
    height: nat,
) -> Seq<Seq<char>> {
    action->args.map_values(|t: Seq<char>| expanded(t, path, width, height))
}

/// The script that an action runs on a photo, which is shown with `width` times `height` pixels.
/// `script_path` is the script's absolute path. The script reads `filters`, the text of the filters, if
/// the action asks for that, and else nothing.
pub fn script_request(
    cx: &ActionContext,
    index: usize,
    action: &Action,
    script_path: String,
    width: u32,
    height: u32,
    filters: String,
) -> (r: ScriptRequest)
    requires
        cx.wf(),
        index < cx.collection.photos().len(),
        action is RunScript,
    ensures
        r.script_path == script_path,
        r.stdin_content == if action->pass_filters_stdin {
            Some(filters)
        } else {
            None
        },
        r.script_args.deep_view() == script_arguments(
            action.deep_view(),
            cx.collection.photos()[index as int].path,
            width as nat,
            height as nat,
        ),
{
    let path = &cx.collection.entries[index].path;
    assert(path@ == cx.collection.photos()[index as int].path);
    let mut args: Vec<String> = Vec::new();
    let mut stdin_content: Option<String> = None;
    if let Action::RunScript { args: templates, pass_filters_stdin, .. } = action {
        let mut i: usize = 0;
        while i < templates.len()
            invariant
                i <= templates@.len(),
                args@.len() == i,
                forall|k: int|
                    0 <= k < i ==> (#[trigger] args@[k])@ == expanded(
                        templates@[k]@,
                        path@,
                        width as nat,
                        height as nat,
                    ),
            decreases templates@.len() - i,
        {
            args.push(expand_template(templates[i].as_str(), path.as_str(), width, height));
            i += 1;
        }
        assert(args.deep_view() =~= templates.deep_view().map_values(
            |t: Seq<char>| expanded(t, path@, width as nat, height as nat),
        ));
        if *pass_filters_stdin {
            stdin_content = Some(filters);
        }
    }
    ScriptRequest { script_path, script_args: args, stdin_content }
}

/// Follows the attempt to start a script.
pub fn script_dispatched(cx: &mut ActionContext, started: bool, now: u64)
    requires
        old(cx).wf(),
    ensures
        final(cx).wf(),
        started ==> only_state(
            *old(cx),
            *final(cx),
            AppState { script_running: true, ..old(cx).app_state },
        ),
        !started ==> only_says(*old(cx), *final(cx), "Failed to dispatch script"@, now),
{
    if started {
        cx.app_state.script_running = true;
    } else {
        cx.overlay.push_toast("Failed to dispatch script".to_owned(), now);
    }
}

/// Follows the end of a script: says what came of it.
pub fn script_finished(cx: &mut ActionContext, result: ScriptResult, now: u64)
    requires
        old(cx).wf(),
    ensures
        final(cx).wf(),
        same_photos(*old(cx), *final(cx)),
        final(cx).viewer == old(cx).viewer,
        final(cx).app_state == (AppState { script_running: false, ..old(cx).app_state }),
        final(cx).overlay.says(
            old(cx).overlay,
            if result.success {
                result.output@
            } else {
                "Script failed: "@ + result.output@
            },
            now,
        ),
{
    let text = if result.success {
        result.output
    } else {
        let mut t = "Script failed: ".to_owned();
        t.append(result.output.as_str());
        t
    };
    cx.overlay.push_toast(text, now);
    cx.app_state.script_running = false;
}

} // verus!
