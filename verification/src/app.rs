//! The application: what keys, searches and panels do to it.
//!
//! Each function here is one step. Where a step needs a file written, it says which, and another
//! step takes what came of it.
use crate::actions::{ActionContext, AppState};
use crate::binding::{Action, ActionView};
use crate::collection::PhotoCollection;
use crate::config::{is_bound, Key, KeyBindingMap, KeyCombo, ModifierSet};
use crate::gallery::{BackgroundColor, EditGallery, FilterPreset, PresetView};
use crate::image_cache::{CacheView, ImageCache};
use crate::overlay::OverlayState;
use crate::scalar::Scalar;
use crate::search::{all_places, search, shown_by};
use crate::text;
use crate::viewer::{has_room, is_grid_dimension, square, ViewerState};
use std::collections::HashSet;
use vstd::prelude::*;

verus! {

broadcast use vstd::string::group_string_axioms;

/// The search for similar photos whose result is shown.
#[derive(Debug)]
pub struct SimilarState {
    pub namespace: String,
    pub count: usize,
    /// How far the photos are to lie from each other, if that matters.
    pub threshold: Option<Scalar>,
    /// The photo that the others are like.
    pub query_ci: usize,
    pub panel_open: bool,
}

/// The gallery file that a preset belongs to.
#[derive(Debug)]
pub enum PresetSource {
    Collection(String),
    EditGallery(usize),
}

/// The contents of a `PresetSource`.
pub ghost enum SourceView {
    Collection(Seq<char>),
    EditGallery(usize),
}

impl DeepView for PresetSource {
    type V = SourceView;

    open spec fn deep_view(&self) -> SourceView {
        match *self {
            PresetSource::Collection(p) => SourceView::Collection(p@),
            PresetSource::EditGallery(i) => SourceView::EditGallery(i),
        }
    }
}

/// A preset with the gallery file that it belongs to.
#[derive(Debug)]
pub struct PresetEntry {
    pub preset: FilterPreset,
    pub source: PresetSource,
}

impl DeepView for PresetEntry {
    type V = (PresetView, SourceView);

    open spec fn deep_view(&self) -> (PresetView, SourceView) {
        (self.preset.deep_view(), self.source.deep_view())
    }
}

/// The application.
pub struct GalerieApp {
    pub cx: ActionContext,
    pub keybindings: KeyBindingMap,
    pub edit_galleries: Vec<EditGallery>,
    pub gallery_selector_open: bool,
    pub gallery_selector_cursor: usize,
    /// The dimension of the grid to go back to.
    pub last_tiling_cols: usize,
    pub search_query: String,
    pub annotation_input: String,
    pub annotation_focus_pending: bool,
    /// The filters of the photo whose parameters are shown, by their places.
    pub filter_accordion_open: HashSet<usize>,
    pub gallery_pre_accordion_open: HashSet<usize>,
    pub gallery_post_accordion_open: HashSet<usize>,
    pub presets: Vec<PresetEntry>,
    pub preset_save_name: String,
    pub similar_state: Option<SimilarState>,
}

impl GalerieApp {
    pub open spec fn wf(self) -> bool {
        &&& self.cx.wf()
        &&& self.keybindings.wf()
        &&& forall|i: int|
            0 <= i < self.edit_galleries@.len() ==> (#[trigger] self.edit_galleries@[i]).wf()
        &&& self.last_tiling_cols >= 1
        &&& self.cx.tile_count == self.last_tiling_cols * self.last_tiling_cols
    }

    /// All but the context is as in `before`.
    pub open spec fn same_panels(self, before: GalerieApp) -> bool {
        &&& self.keybindings == before.keybindings
        &&& self.edit_galleries == before.edit_galleries
        &&& self.gallery_selector_open == before.gallery_selector_open
        &&& self.gallery_selector_cursor == before.gallery_selector_cursor
        &&& self.last_tiling_cols == before.last_tiling_cols
        &&& self.search_query == before.search_query
        &&& self.annotation_input == before.annotation_input
        &&& self.annotation_focus_pending == before.annotation_focus_pending
        &&& self.filter_accordion_open == before.filter_accordion_open
        &&& self.gallery_pre_accordion_open == before.gallery_pre_accordion_open
        &&& self.gallery_post_accordion_open == before.gallery_post_accordion_open
        &&& self.presets == before.presets
        &&& self.preset_save_name == before.preset_save_name
        &&& self.similar_state == before.similar_state
    }
}

/// The preset of a name stands in the list.
pub open spec fn has_preset(pool: Seq<(PresetView, SourceView)>, name: Seq<char>) -> bool {
    exists|i: int| 0 <= i < pool.len() && (#[trigger] pool[i]).0.name == name
}

/// The list with those presets of the gallery `index` of whose names there is none yet.
pub open spec fn with_edit_presets(
    pool: Seq<(PresetView, SourceView)>,
    presets: Seq<PresetView>,
    index: usize,
) -> Seq<(PresetView, SourceView)>
    decreases presets.len(),
{
    if presets.len() == 0 {
        pool
    } else {
        let before = with_edit_presets(pool, presets.drop_last(), index);
        if has_preset(before, presets.last().name) {
            before
        } else {
            before.push((presets.last(), SourceView::EditGallery(index)))
        }
    }
}

/// The presets of the edited galleries.
pub open spec fn edit_presets(galleries: Seq<EditGallery>) -> Seq<Seq<PresetView>> {
    Seq::new(galleries.len(), |i: int| galleries[i].presets.deep_view())
}

/// The presets of the open gallery files, and those of the edited galleries whose names are not taken.
pub open spec fn pooled(
    open: Seq<(PresetView, Seq<char>)>,
    edited: Seq<Seq<PresetView>>,
) -> Seq<(PresetView, SourceView)>
    decreases edited.len(),
{
    if edited.len() == 0 {
        Seq::new(open.len(), |i: int| (open[i].0, SourceView::Collection(open[i].1)))
    } else {
        with_edit_presets(
            pooled(open, edited.drop_last()),
            edited.last(),
            (edited.len() - 1) as usize,
        )
    }
}

/// Whether the preset of a name stands in the list, and where.
pub fn preset_index(pool: &Vec<PresetEntry>, name: &str) -> (r: Option<usize>)
    ensures
        r is Some <==> has_preset(pool.deep_view(), name@),
        r matches Some(i) ==> i == first_named(pool.deep_view(), name@) && i < pool@.len(),
{
    let ghost all = pool.deep_view();
    let mut i: usize = 0;
    while i < pool.len()
        invariant
            i <= pool@.len(),
            all == pool.deep_view(),
            forall|k: int| 0 <= k < i ==> (#[trigger] all[k]).0.name != name@,
        decreases pool@.len() - i,
    {
        assert(all[i as int].0.name == pool@[i as int].preset.name@);
        if text::same(pool[i].preset.name.as_str(), name) {
            proof {
                lemma_first_named(all, name@, i as int);
            }
            return Some(i);
        }
        i += 1;
    }
    None
}

/// The first preset of a name.
pub open spec fn first_named(pool: Seq<(PresetView, SourceView)>, name: Seq<char>) -> int
    decreases pool.len(),
{
    if pool.len() == 0 || pool[0].0.name == name {
        0
    } else {
        1 + first_named(pool.drop_first(), name)
    }
}

proof fn lemma_first_named(pool: Seq<(PresetView, SourceView)>, name: Seq<char>, i: int)
    requires
        0 <= i < pool.len(),
        pool[i].0.name == name,
        forall|k: int| 0 <= k < i ==> (#[trigger] pool[k]).0.name != name,
    ensures
        first_named(pool, name) == i,
    decreases pool.len(),
{
    if i > 0 {
        let rest = pool.drop_first();
        assert(pool[0].0.name != name);
        assert forall|k: int| 0 <= k < i - 1 implies (#[trigger] rest[k]).0.name != name by {
            assert(rest[k] == pool[k + 1]);
        }
        lemma_first_named(rest, name, i - 1);
    }
}

/// The presets at hand: those of the open gallery files, then those of the edited galleries whose
/// names are not taken.
pub fn preset_pool(collection: &PhotoCollection, edit_galleries: &Vec<EditGallery>) -> (r: Vec<
    PresetEntry,
>)
    ensures
        r.deep_view() == pooled(
            crate::collection::presets_of(collection.galleries()),
            edit_presets(edit_galleries@),
        ),
{
    let open = collection.all_presets();
    let ghost o = crate::collection::preset_list(open@);
    let ghost edited = edit_presets(edit_galleries@);
    let mut r: Vec<PresetEntry> = Vec::new();
    let mut i: usize = 0;
    while i < open.len()
        invariant
            i <= open@.len(),
            o == crate::collection::preset_list(open@),
            r@.len() == i,
            forall|k: int|
                0 <= k < i ==> (#[trigger] r@[k]).deep_view() == (
                    o[k].0,
                    SourceView::Collection(o[k].1),
                ),
        decreases open@.len() - i,
    {
        let preset = open[i].0.clone();
        let source = PresetSource::Collection(open[i].1.clone());
        r.push(PresetEntry { preset, source });
        i += 1;
    }
    assert(r.deep_view() =~= pooled(o, edited.take(0)));
    let mut g: usize = 0;
    while g < edit_galleries.len()
        invariant
            g <= edit_galleries@.len(),
            edited == edit_presets(edit_galleries@),
            r.deep_view() == pooled(o, edited.take(g as int)),
        decreases edit_galleries@.len() - g,
    {
        let own = &edit_galleries[g].presets;
        let ghost upto = edited.take(g + 1);
        let ghost before = r.deep_view();
        let ghost p = own.deep_view();
        proof {
            assert(upto.drop_last() == edited.take(g as int));
            assert(upto.last() == p);
            assert(before == with_edit_presets(before, p.take(0), g));
        }
        let mut j: usize = 0;
        while j < own.len()
            invariant
                j <= own@.len(),
                p == own.deep_view(),
                r.deep_view() == with_edit_presets(before, p.take(j as int), g),
            decreases own@.len() - j,
        {
            let ghost have = r.deep_view();
            assert(p.take(j + 1).drop_last() == p.take(j as int));
            assert(p.take(j + 1).last() == own@[j as int].deep_view());
            if preset_index(&r, own[j].name.as_str()).is_none() {
                let e = PresetEntry {
                    preset: own[j].clone(),
                    source: PresetSource::EditGallery(g),
                };
                r.push(e);
                assert(r.deep_view() =~= have.push(e.deep_view()));
            }
            j += 1;
        }
        assert(p.take(j as int) == p);
        g += 1;
    }
    assert(edited.take(g as int) == edited);
    r
}

impl GalerieApp {
    /// The application at the start, with all photos shown.
    pub fn new(
        keybindings: KeyBindingMap,
        tile_count: usize,
        cache_size: usize,
        background_color: BackgroundColor,
        collection: PhotoCollection,
        edit_galleries: Vec<EditGallery>,
        now: u64,
    ) -> (app: Self)
        requires
            keybindings.wf(),
            has_room(tile_count as int),
            64 * cache_size <= isize::MAX,
            collection.wf(),
            forall|i: int| 0 <= i < edit_galleries@.len() ==> (#[trigger] edit_galleries@[i]).wf(),
        ensures
            app.wf(),
            app.cx.collection == collection,
            app.cx.display@ == all_places(collection.photos().len()),
            app.cx.viewer matches ViewerState::Tiling(s) && s.page == 0 && s.selected == 0
                && is_grid_dimension(s.cols as int, tile_count as int) && app.last_tiling_cols
                == s.cols,
            app.cx.cache@ == (CacheView {
                entries: Seq::empty(),
                limit: if cache_size >= 1 {
                    cache_size as nat
                } else {
                    1
                },
                pending: Map::empty(),
                errors: Map::empty(),
                histograms: Map::empty(),
            }),
            app.cx.overlay.show_filename && app.cx.overlay.show_rating,
            app.cx.overlay.toast is None,
            app.cx.app_state == (AppState {
                background_color: match collection.galleries() {
                    gs => if gs.len() == 1 && gs[0].1.background_color is Some {
                        gs[0].1.background_color->0
                    } else {
                        background_color
                    },
                },
                ..AppState::initial(now)
            }),
            app.keybindings == keybindings,
            app.edit_galleries == edit_galleries,
            !app.gallery_selector_open,
            app.gallery_selector_cursor == 0,
            app.search_query@.len() == 0,
            app.annotation_input@.len() == 0,
            !app.annotation_focus_pending,
            app.filter_accordion_open@ == Set::<usize>::empty(),
            app.gallery_pre_accordion_open@ == Set::<usize>::empty(),
            app.gallery_post_accordion_open@ == Set::<usize>::empty(),
            app.preset_save_name@.len() == 0,
            app.similar_state is None,
            app.presets.deep_view() == pooled(
                crate::collection::presets_of(collection.galleries()),
                edit_presets(edit_galleries@),
            ),
    {
        let viewer = ViewerState::new_tiling(tile_count);
        let cols = match viewer {
            ViewerState::Tiling(s) => s.cols,
            ViewerState::Single(_) => 1,
        };
        proof {
            crate::viewer::lemma_has_room(cols as int, tile_count as int);
            assert(square(cols as int) == cols * cols);
            assert(0 < cols * cols) by (nonlinear_arith)
                requires
                    cols >= 1,
            ;
        }
        let mut app_state = AppState::new(now);
        app_state.background_color =
        match collection.galerie_background() {
            Some(c) => c,
            None => background_color,
        };
        let n = collection.len();
        let mut display: Vec<usize> = Vec::new();
        let mut i: usize = 0;
        while i < n
            invariant
                i <= n,
                display@ == all_places(i as nat),
            decreases n - i,
        {
            display.push(i);
            assert(display@ =~= all_places((i + 1) as nat));
            i += 1;
        }
        let presets = preset_pool(&collection, &edit_galleries);
        let cx = ActionContext {
            collection,
            viewer,
            cache: ImageCache::new(cache_size),
            overlay: OverlayState::default(),
            app_state,
            tile_count: cols * cols,
            display,
        };
        GalerieApp {
            cx,
            keybindings,
            edit_galleries,
            gallery_selector_open: false,
            gallery_selector_cursor: 0,
            last_tiling_cols: cols,
            search_query: String::new(),
            annotation_input: String::new(),
            annotation_focus_pending: false,
            filter_accordion_open: HashSet::new(),
            gallery_pre_accordion_open: HashSet::new(),
            gallery_post_accordion_open: HashSet::new(),
            presets,
            preset_save_name: String::new(),
            similar_state: None,
        }
    }

    /// Collects the presets anew.
    pub fn rebuild_presets(&mut self)
        requires
            old(self).wf(),
        ensures
            final(self).wf(),
            final(self).presets.deep_view() == pooled(
                crate::collection::presets_of(old(self).cx.collection.galleries()),
                edit_presets(old(self).edit_galleries@),
            ),
            final(self).same_panels(GalerieApp { presets: final(self).presets, ..*old(self) }),
            final(self).cx == old(self).cx,
    {
        self.presets = preset_pool(&self.cx.collection, &self.edit_galleries);
    }
}

/// Where a photo stands among those shown; the start where it does not.
pub open spec fn place_of(display: Seq<usize>, photo: Option<usize>) -> int {
    match photo {
        Some(p) => if display.contains(p) {
            first_place_of(display, p)
        } else {
            0
        },
        None => 0,
    }
}

/// The first place of a photo among those shown.
pub open spec fn first_place_of(display: Seq<usize>, p: usize) -> int
    decreases display.len(),
{
    if display.len() == 0 || display[0] == p {
        0
    } else {
        1 + first_place_of(display.drop_first(), p)
    }
}

proof fn lemma_first_place_of(display: Seq<usize>, p: usize, i: int)
    requires
        0 <= i < display.len(),
        display[i] == p,
        forall|k: int| 0 <= k < i ==> #[trigger] display[k] != p,
    ensures
        first_place_of(display, p) == i,
    decreases display.len(),
{
    if i > 0 {
        let rest = display.drop_first();
        assert(display[0] != p);
        assert forall|k: int| 0 <= k < i - 1 implies #[trigger] rest[k] != p by {
            assert(rest[k] == display[k + 1]);
        }
        lemma_first_place_of(rest, p, i - 1);
    }
}

fn find_place(display: &Vec<usize>, photo: Option<usize>) -> (i: usize)
    ensures
        i == place_of(display@, photo),
        display@.len() > 0 ==> i < display@.len(),
{
    match photo {
        None => 0,
        Some(p) => {
            let mut i: usize = 0;
            while i < display.len()
                invariant
                    i <= display@.len(),
                    photo == Some(p),
                    forall|k: int| 0 <= k < i ==> #[trigger] display@[k] != p,
                decreases display@.len() - i,
            {
                if display[i] == p {
                    proof {
                        lemma_first_place_of(display@, p, i as int);
                    }
                    return i;
                }
                i += 1;
            }
            0
        },
    }
}

/// The photo in focus, if any is.
pub open spec fn photo_in_focus(cx: ActionContext) -> Option<usize> {
    if cx.viewer.focus() < cx.display@.len() {
        Some(cx.display@[cx.viewer.focus()])
    } else {
        None
    }
}

/// `b` is `a` with the photos shown that `query` finds. The photo in focus stays so, if it is one of
/// them; otherwise the first of them comes into focus.
pub open spec fn refiltered(a: ActionContext, b: ActionContext, query: Seq<char>) -> bool {
    &&& b.display@ == shown_by(a.collection.photos(), query)
    &&& b.viewer == if b.display@.len() == 0 {
        a.viewer
    } else {
        a.viewer.refocused(place_of(b.display@, photo_in_focus(a)) as usize)
    }
    &&& a.collection == b.collection
    &&& a.cache == b.cache
    &&& a.overlay == b.overlay
    &&& a.app_state == b.app_state
    &&& a.tile_count == b.tile_count
}

impl GalerieApp {
    /// Shows the photos that the search finds.
    pub fn update_filter(&mut self)
        requires
            old(self).wf(),
        ensures
            final(self).wf(),
            final(self).same_panels(*old(self)),
            refiltered(old(self).cx, final(self).cx, old(self).search_query@),
    {
        let f = self.cx.viewer.focused_index();
        let photo = if f < self.cx.display.len() {
            Some(self.cx.display[f])
        } else {
            None
        };
        let display = search(&self.cx.collection.entries, self.search_query.as_str());
        let place = find_place(&display, photo);
        let some = display.len() > 0;
        self.cx.display = display;
        if some {
            self.cx.viewer.refocus(place);
        }
    }
}

/// A photo that a search still finds stays in focus.
pub proof fn focus_survives_search(a: ActionContext, b: ActionContext, query: Seq<char>)
    requires
        a.wf(),
        a.display@.len() > 0,
        refiltered(a, b, query),
        b.wf(),
        b.display@.contains(a.display@[a.viewer.focus()]),
    ensures
        b.display@[b.viewer.focus()] == a.display@[a.viewer.focus()],
{
    let p = a.display@[a.viewer.focus()];
    let i = choose|i: int| 0 <= i < b.display@.len() && b.display@[i] == p;
    lemma_place_is_right(b.display@, p, i);
    assert(b.display.len() <= usize::MAX);
    lemma_refocused(a.viewer, place_of(b.display@, photo_in_focus(a)));
}

proof fn lemma_refocused(v: ViewerState, place: int)
    requires
        v.wf(),
        0 <= place <= usize::MAX,
    ensures
        v.refocused(place as usize).focus() == place,
{
    if let ViewerState::Tiling(s) = v {
        let tc = s.tiles();
        assert(tc > 0) by (nonlinear_arith)
            requires
                tc == s.cols * s.cols,
                s.cols >= 1,
        ;
        vstd::arithmetic::div_mod::lemma_fundamental_div_mod(place, tc);
        assert(tc * (place / tc) == (place / tc) * tc) by (nonlinear_arith);
        assert(0 <= place / tc <= place) by (nonlinear_arith)
            requires
                tc > 0,
                place >= 0,
        ;
        assert(0 <= place % tc <= place) by (nonlinear_arith)
            requires
                tc > 0,
                place >= 0,
        ;
    }
}

proof fn lemma_place_is_right(display: Seq<usize>, p: usize, i: int)
    requires
        0 <= i < display.len(),
        display[i] == p,
    ensures
        0 <= first_place_of(display, p) < display.len(),
        display[first_place_of(display, p)] == p,
    decreases display.len(),
{
    if display[0] != p {
        lemma_place_is_right(display.drop_first(), p, i - 1);
    }
}

/// What a key asks for beyond the panels.
#[derive(Debug, PartialEq)]
pub enum KeyOutcome {
    Nothing,
    /// The photo in focus goes into the edited gallery at `gallery`, or out of it.
    ToggleMembership { gallery: usize, announce: bool },
    CycleBackground,
    FindSimilar { namespace: String, count: usize },
    FindSimilarDiverse { namespace: String, count: usize, threshold: Scalar },
    Run(Action),
}

/// `outcome` is what the action asks for.
pub open spec fn asks_for(outcome: KeyOutcome, action: ActionView) -> bool {
    match action {
        ActionView::CycleBackground => outcome is CycleBackground,
        ActionView::FindSimilar { namespace, count } => outcome matches KeyOutcome::FindSimilar {
            namespace: ns,
            count: c,
        } && ns@ == namespace && c == count,
        ActionView::FindSimilarDiverse { namespace, count, threshold } => {
            outcome matches KeyOutcome::FindSimilarDiverse { namespace: ns, count: c, threshold: t }
                && ns@ == namespace && c == count && t == threshold
        },
        _ => outcome matches KeyOutcome::Run(a) && a.deep_view() == action,
    }
}

/// The keys that count as held down. Some keyboards have the plus sign above another, so that shift
/// says nothing with it.
pub open spec fn effective_modifiers(key: Key, ctrl: bool, shift: bool, alt: bool) -> ModifierSet {
    ModifierSet { ctrl, shift: shift && key != Key::Plus, alt }
}

/// What a key does while the list of galleries is open.
pub open spec fn selector_key(
    a: GalerieApp,
    key: Key,
    b: GalerieApp,
    outcome: KeyOutcome,
) -> bool {
    let n = a.edit_galleries@.len();
    let c = a.gallery_selector_cursor;
    if key == Key::ArrowUp || key == Key::K {
        &&& outcome is Nothing
        &&& b == GalerieApp {
            gallery_selector_cursor: if c > 0 {
                (c - 1) as usize
            } else {
                c
            },
            ..a
        }
    } else if key == Key::ArrowDown || key == Key::J {
        &&& outcome is Nothing
        &&& b == GalerieApp {
            gallery_selector_cursor: if c + 1 < n {
                (c + 1) as usize
            } else {
                c
            },
            ..a
        }
    } else if key == Key::Space || key == Key::Enter {
        &&& b == a
        &&& outcome == if a.cx.display@.len() == 0 || c >= n {
            KeyOutcome::Nothing
        } else {
            KeyOutcome::ToggleMembership { gallery: c, announce: false }
        }
    } else if key == Key::T || key == Key::Escape {
        &&& outcome is Nothing
        &&& b == GalerieApp { gallery_selector_open: false, ..a }
    } else {
        &&& outcome is Nothing
        &&& b == a
    }
}

/// What the key T does where galleries are edited.
pub open spec fn gallery_key(a: GalerieApp, b: GalerieApp, outcome: KeyOutcome) -> bool {
    if a.cx.display@.len() == 0 {
        outcome is Nothing && b == a
    } else if a.edit_galleries@.len() == 1 {
        outcome == (KeyOutcome::ToggleMembership { gallery: 0, announce: true }) && b == a
    } else {
        &&& outcome is Nothing
        &&& b == GalerieApp {
            gallery_selector_open: !a.gallery_selector_open,
            gallery_selector_cursor: if a.gallery_selector_open {
                a.gallery_selector_cursor
            } else {
                0
            },
            ..a
        }
    }
}

/// The state with the annotations shown or not.
pub open spec fn showing_annotations(a: GalerieApp, show: bool) -> GalerieApp {
    GalerieApp {
        cx: ActionContext {
            app_state: AppState { show_annotations: show, ..a.cx.app_state },
            ..a.cx
        },
        ..a
    }
}

/// The state with the annotations shown where they were not, or the other way round. Where they come
/// up, the input is to be typed into.
pub open spec fn toggled_annotations(a: GalerieApp) -> GalerieApp {
    GalerieApp {
        annotation_focus_pending: a.annotation_focus_pending || !a.cx.app_state.show_annotations,
        ..showing_annotations(a, !a.cx.app_state.show_annotations)
    }
}

/// `b` and `outcome` are what an action that a key is bound to makes of `a`.
pub open spec fn does(a: GalerieApp, action: ActionView, b: GalerieApp, outcome: KeyOutcome) -> bool {
    if action is ToggleAnnotations {
        outcome is Nothing && b == toggled_annotations(a)
    } else {
        asks_for(outcome, action) && b == a
    }
}

/// `b` and `outcome` are what the configuration has a key make of `a`.
pub open spec fn bound_key(
    a: GalerieApp,
    combo: KeyCombo,
    b: GalerieApp,
    outcome: KeyOutcome,
) -> bool {
    if is_bound(a.keybindings.actions(), combo) {
        exists|action: ActionView|
            a.keybindings.actions().contains((combo, action)) && #[trigger] does(
                a,
                action,
                b,
                outcome,
            )
    } else {
        outcome is Nothing && b == a
    }
}

/// `b` and `outcome` are what a key makes of `a`.
pub open spec fn pressed(
    a: GalerieApp,
    key: Key,
    ctrl: bool,
    shift: bool,
    alt: bool,
    b: GalerieApp,
    outcome: KeyOutcome,
) -> bool {
    let combo = KeyCombo { key, modifiers: effective_modifiers(key, ctrl, shift, alt) };
    if a.gallery_selector_open {
        selector_key(a, key, b, outcome)
    } else if key == Key::T && !ctrl && !alt && a.edit_galleries@.len() > 0 {
        gallery_key(a, b, outcome)
    } else if key == Key::Escape && a.cx.app_state.show_annotations {
        outcome is Nothing && b == showing_annotations(a, false)
    } else if key == Key::Escape && a.cx.app_state.is_fullscreen {
        &&& outcome is Nothing
        &&& b == GalerieApp {
            cx: ActionContext {
                app_state: AppState {
                    is_fullscreen: false,
                    fullscreen_pending: Some(false),
                    ..a.cx.app_state
                },
                ..a.cx
            },
            ..a
        }
    } else if key == Key::Escape && a.cx.viewer is Tiling && a.cx.display@.len()
        < a.cx.collection.photos().len() {
        &&& outcome is Nothing
        &&& b.search_query@.len() == 0
        &&& b.similar_state is None
        &&& b.same_panels(
            GalerieApp { search_query: b.search_query, similar_state: None, ..a },
        )
        &&& refiltered(a.cx, b.cx, b.search_query@)
    } else {
        bound_key(a, combo, b, outcome)
    }
}

impl GalerieApp {
    /// Begins a frame: takes note of the grid's dimension. Returns whether the window is to fill the
    /// screen, if that is to change.
    pub fn begin_input(&mut self) -> (fullscreen: Option<bool>)
        requires
            old(self).wf(),
        ensures
            final(self).wf(),
            fullscreen == old(self).cx.app_state.fullscreen_pending,
            *final(self) == (GalerieApp {
                last_tiling_cols: final(self).last_tiling_cols,
                cx: ActionContext {
                    app_state: AppState { fullscreen_pending: None, ..old(self).cx.app_state },
                    tile_count: final(self).cx.tile_count,
                    ..old(self).cx
                },
                ..*old(self)
            }),
            final(self).last_tiling_cols == match old(self).cx.viewer {
                ViewerState::Tiling(s) => s.cols,
                ViewerState::Single(_) => old(self).last_tiling_cols,
            },
    {
        let fullscreen = self.cx.app_state.fullscreen_pending;
        self.cx.app_state.fullscreen_pending = None;
        if let ViewerState::Tiling(s) = self.cx.viewer {
            self.last_tiling_cols = s.cols;
            self.cx.tile_count = s.cols * s.cols;
            assert(square(s.cols as int) == s.cols * s.cols);
        }
        fullscreen
    }

    /// Escape, pressed while something is typed, closes the annotations.
    pub fn escape_while_typing(&mut self)
        requires
            old(self).wf(),
        ensures
            final(self).wf(),
            *final(self) == showing_annotations(*old(self), false),
    {
        self.cx.app_state.show_annotations = false;
    }

    /// A key was pressed while nothing is typed.
    pub fn key_pressed(&mut self, key: Key, ctrl: bool, shift: bool, alt: bool) -> (outcome: KeyOutcome)
        requires
            old(self).wf(),
        ensures
            final(self).wf(),
            pressed(*old(self), key, ctrl, shift, alt, *final(self), outcome),
    {
        if self.gallery_selector_open {
            return self.selector_key_pressed(key);
        }
        if key == Key::T && !ctrl && !alt && self.edit_galleries.len() > 0 {
            return self.handle_gallery_t_press();
        }
        if key == Key::Escape && self.cx.app_state.show_annotations {
            self.cx.app_state.show_annotations = false;
            return KeyOutcome::Nothing;
        }
        if key == Key::Escape && self.cx.app_state.is_fullscreen {
            self.cx.app_state.is_fullscreen = false;
            self.cx.app_state.fullscreen_pending = Some(false);
            return KeyOutcome::Nothing;
        }
        let tiling = matches!(self.cx.viewer, ViewerState::Tiling(_));
        if key == Key::Escape && tiling && self.cx.display.len() < self.cx.collection.len() {
            self.search_query = String::new();
            self.similar_state = None;
            self.update_filter();
            return KeyOutcome::Nothing;
        }
        let modifiers = ModifierSet { ctrl, shift: shift && key != Key::Plus, alt };
        self.bound_key_pressed(KeyCombo { key, modifiers })
    }

    fn selector_key_pressed(&mut self, key: Key) -> (outcome: KeyOutcome)
        requires
            old(self).wf(),
        ensures
            final(self).wf(),
            selector_key(*old(self), key, *final(self), outcome),
    {
        let n = self.edit_galleries.len();
        match key {
            Key::ArrowUp | Key::K => {
                if self.gallery_selector_cursor > 0 {
                    self.gallery_selector_cursor = self.gallery_selector_cursor - 1;
                }
                KeyOutcome::Nothing
            },
            Key::ArrowDown | Key::J => {
                if n > 0 && self.gallery_selector_cursor < n - 1 {
                    self.gallery_selector_cursor = self.gallery_selector_cursor + 1;
                }
                KeyOutcome::Nothing
            },
            Key::Space | Key::Enter => self.toggle_at_cursor(),
            Key::T | Key::Escape => {
                self.gallery_selector_open = false;
                KeyOutcome::Nothing
            },
            _ => KeyOutcome::Nothing,
        }
    }

    /// What is asked for at the cursor of the list of galleries.
    pub fn toggle_at_cursor(&self) -> (outcome: KeyOutcome)
        ensures
            outcome == if self.cx.display@.len() == 0 || self.gallery_selector_cursor
                >= self.edit_galleries@.len() {
                KeyOutcome::Nothing
            } else {
                KeyOutcome::ToggleMembership {
                    gallery: self.gallery_selector_cursor,
                    announce: false,
                }
            },
    {
        if self.cx.display.len() == 0 || self.gallery_selector_cursor >= self.edit_galleries.len() {
            KeyOutcome::Nothing
        } else {
            KeyOutcome::ToggleMembership { gallery: self.gallery_selector_cursor, announce: false }
        }
    }

    fn handle_gallery_t_press(&mut self) -> (outcome: KeyOutcome)
        requires
            old(self).wf(),
            old(self).edit_galleries@.len() > 0,
        ensures
            final(self).wf(),
            gallery_key(*old(self), *final(self), outcome),
    {
        if self.cx.display.len() == 0 {
            return KeyOutcome::Nothing;
        }
        if self.edit_galleries.len() == 1 {
            return KeyOutcome::ToggleMembership { gallery: 0, announce: true };
        }
        self.gallery_selector_open = !self.gallery_selector_open;
        if self.gallery_selector_open {
            self.gallery_selector_cursor = 0;
        }
        KeyOutcome::Nothing
    }

    fn bound_key_pressed(&mut self, combo: KeyCombo) -> (outcome: KeyOutcome)
        requires
            old(self).wf(),
        ensures
            final(self).wf(),
            bound_key(*old(self), combo, *final(self), outcome),
    {
        match self.keybindings.action_of(combo) {
            None => KeyOutcome::Nothing,
            Some(action) => {
                let ghost view = action.deep_view();
                if let Action::ToggleAnnotations = action {
                    self.toggle_annotations();
                    assert(does(*old(self), view, *self, KeyOutcome::Nothing));
                    return KeyOutcome::Nothing;
                }
                let outcome = outcome_of(action);
                assert(does(*old(self), view, *self, outcome));
                outcome
            },
        }
    }

    /// Shows the annotations, or hides them.
    pub fn toggle_annotations(&mut self)
        requires
            old(self).wf(),
        ensures
            final(self).wf(),
            *final(self) == toggled_annotations(*old(self)),
    {
        let show = !self.cx.app_state.show_annotations;
        self.cx.app_state.show_annotations = show;
        if show {
            self.annotation_focus_pending = true;
        }
    }
}

fn outcome_of(action: Action) -> (outcome: KeyOutcome)
    ensures
        asks_for(outcome, action.deep_view()),
{
    match action {
        Action::CycleBackground => KeyOutcome::CycleBackground,
        Action::FindSimilar { namespace, count } => KeyOutcome::FindSimilar { namespace, count },
        Action::FindSimilarDiverse { namespace, count, threshold } => {
            KeyOutcome::FindSimilarDiverse { namespace, count, threshold }
        },
        other => KeyOutcome::Run(other),
    }
}

} // verus!
