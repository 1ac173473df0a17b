//! What stays as it is when something changes.
use crate::actions::{
    forgets, notes_data, only_says, only_state, only_viewer, same_photos, ActionContext, AppState,
};
use crate::app::{showing_annotations, toggled_annotations, GalerieApp};
use crate::editing::{same_but_cache, same_but_collection, same_but_rows, FilterList};
use crate::gallery::DataView;
use crate::panels::now_says;
use crate::sidebar::same_but_presets;
use crate::viewer::ViewerState;
use vstd::prelude::*;

verus! {

/// A change of the state alone, of the viewer alone or of the message alone changes nothing else.
pub proof fn one_part_changes(
    a: ActionContext,
    b: ActionContext,
    state: AppState,
    viewer: ViewerState,
    text: Seq<char>,
    now: u64,
)
    ensures
        only_state(a, b, state) <==> b == (ActionContext { app_state: state, ..a }),
        only_viewer(a, b, viewer) <==> b == (ActionContext { viewer, ..a }),
        only_says(a, b, text, now) ==> b == (ActionContext { overlay: b.overlay, ..a })
            && b.overlay.message() == Some(text) && b.overlay.toast->0.born_at == now,
        same_photos(a, b) ==> b.collection == a.collection && b.cache == a.cache && b.display
            == a.display && b.tile_count == a.tile_count,
{
}

/// What is noted of a photo changes the collection alone, and forgetting a photo the images at hand
/// and the message.
pub proof fn photos_change_without_the_viewer(
    a: ActionContext,
    b: ActionContext,
    data: DataView,
    canon: Seq<Seq<char>>,
    save: Option<Seq<char>>,
    index: usize,
    text: Seq<char>,
    now: u64,
)
    ensures
        notes_data(a, b, data, canon, save) ==> b == (ActionContext {
            collection: b.collection,
            ..a
        }),
        forgets(a, b, index, text, now) ==> b == (ActionContext {
            cache: b.cache,
            overlay: b.overlay,
            ..a
        }),
{
}

/// Where the panels stay the same, all that can change is what the actions work on.
pub proof fn panels_stay(a: GalerieApp, b: GalerieApp)
    ensures
        b.same_panels(a) <==> b == (GalerieApp { cx: b.cx, ..a }),
{
}

/// A message, and changes of the rows, the collection, the images at hand or the presets, change
/// nothing but these.
pub proof fn the_application_changes_in_one_place(
    a: GalerieApp,
    b: GalerieApp,
    list: FilterList,
    error: Option<Seq<char>>,
    text: Seq<char>,
    now: u64,
)
    ensures
        now_says(a, b, text, now) ==> b == (GalerieApp {
            cx: ActionContext { overlay: b.cx.overlay, ..a.cx },
            ..a
        }) && b.cx.overlay.message() == Some(text),
        same_but_collection(a, b) ==> b == (GalerieApp {
            cx: ActionContext { collection: b.cx.collection, ..a.cx },
            ..a
        }),
        same_but_cache(a, b, error, now) ==> b == (GalerieApp {
            cx: ActionContext { cache: b.cx.cache, overlay: b.cx.overlay, ..a.cx },
            ..a
        }) && (error is None ==> b.cx.overlay == a.cx.overlay) && (error is Some
            ==> b.cx.overlay.message() == error),
        same_but_presets(a, b) ==> b == (GalerieApp {
            cx: ActionContext { collection: b.cx.collection, cache: b.cx.cache, ..a.cx },
            presets: b.presets,
            edit_galleries: b.edit_galleries,
            ..a
        }),
        same_but_rows(a, b, FilterList::Photo) ==> b == (GalerieApp {
            filter_accordion_open: b.filter_accordion_open,
            ..a
        }),
        same_but_rows(a, b, FilterList::Before) ==> b == (GalerieApp {
            gallery_pre_accordion_open: b.gallery_pre_accordion_open,
            ..a
        }),
        same_but_rows(a, b, FilterList::After) ==> b == (GalerieApp {
            gallery_post_accordion_open: b.gallery_post_accordion_open,
            ..a
        }),
{
}

/// Each list of filters has open rows of its own.
pub proof fn lists_have_their_own_rows(a: GalerieApp)
    ensures
        a.rows(FilterList::Photo) == a.filter_accordion_open@,
        a.rows(FilterList::Before) == a.gallery_pre_accordion_open@,
        a.rows(FilterList::After) == a.gallery_post_accordion_open@,
{
}

/// Showing the annotations makes ready to type one; hiding them does not. The search, the viewer
/// and what is shown stay.
pub proof fn annotations_are_shown_and_hidden(a: GalerieApp, show: bool)
    ensures
        showing_annotations(a, show).cx.app_state == (AppState {
            show_annotations: show,
            ..a.cx.app_state
        }),
        toggled_annotations(a).cx.app_state.show_annotations != a.cx.app_state.show_annotations,
        !a.cx.app_state.show_annotations ==> toggled_annotations(a).annotation_focus_pending,
        a.cx.app_state.show_annotations ==> toggled_annotations(a).annotation_focus_pending
            == a.annotation_focus_pending,
        toggled_annotations(a).search_query == a.search_query,
        toggled_annotations(a).cx.viewer == a.cx.viewer,
        toggled_annotations(a).cx.display == a.cx.display,
{
}

} // verus!
