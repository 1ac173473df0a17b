use galerie_montsouris::actions::{
    apply_to_one, can_execute, displayed_dimensions, execute_action, filter_all_settled, filter_settled,
    next_cycle_value, rating_failed, script_dispatched, script_filters, script_finished,
    script_request, work_for, ActionContext, ActionInput, Effect, ScriptResult, Work,
};
use galerie_montsouris::app::{GalerieApp, KeyOutcome, PresetSource};
use galerie_montsouris::binding::Action;
use galerie_montsouris::collection::{HashedFile, PhotoCollection};
use galerie_montsouris::config::{Config, Key};
use galerie_montsouris::editing::FilterList;
use galerie_montsouris::filters::{Arithmetic, Filter, Rgba, RotateFill};
use galerie_montsouris::gallery::{
    new_entry, Annotation, BackgroundColor, EditGallery, FilterPreset, GalleryFile, PhotoData,
};
use galerie_montsouris::image_cache::LoadState;
use galerie_montsouris::labels::{
    annotations_label, gallery_label, is_in_any, membership_line, mode_label, nothing_label,
    photos_label, selector_line,
};
use galerie_montsouris::panels::Tick;
use galerie_montsouris::pixels::{FilterRun, Given, Pixels};
use galerie_montsouris::scalar::Scalar;
use galerie_montsouris::search::{candidates, rank, search, DiverseRun, Scored};
use galerie_montsouris::sidebar::accordion_after_remove;
use galerie_montsouris::viewer::{Direction, ModeTarget, Pan, TilingState, ViewerState};
use std::collections::HashSet;

fn number(x: f32) -> Scalar {
    Scalar { bits: x.to_bits() }
}

fn turned(degrees: i32) -> Filter {
    Filter::Rotate { degrees, center: None, fill: RotateFill::Transparent }
}

fn photos(n: usize) -> PhotoCollection {
    let mut c = PhotoCollection::new();
    let files = (0..n)
        .map(|i| HashedFile { path: format!("/{i}.jpg"), hash: Some(format!("{i:016x}")) })
        .collect();
    c.add_directory(&files);
    c
}

fn gallery(n: usize) -> PhotoCollection {
    let file = GalleryFile {
        name: "g".to_owned(),
        photos: (0..n).map(|i| new_entry(format!("/{i}.jpg"), format!("{i:016x}"))).collect(),
        background_color: None,
        pre_filters: vec![],
        post_filters: vec![],
        presets: vec![],
    };
    let there = (0..n).map(|i| Some(format!("/{i}.jpg"))).collect();
    let mut c = PhotoCollection::new();
    c.add_from_gallery_file("/g.galerie".to_owned(), file, &there, &vec![None; n]);
    c
}

fn edited(name: &str) -> EditGallery {
    EditGallery::load_or_create(
        format!("/{name}.galerie"),
        Some(name.to_owned()),
        None,
        &vec![],
    )
}

fn app(collection: PhotoCollection, galleries: Vec<EditGallery>) -> GalerieApp {
    let keys = Config::default().build_keybinding_map().unwrap();
    GalerieApp::new(keys, 9, 50, BackgroundColor::Gray, collection, galleries, 100)
}

fn press(a: &mut GalerieApp, key: Key) -> KeyOutcome {
    a.key_pressed(key, false, false, false)
}

fn told() -> ActionInput {
    ActionInput { scaled: number(1.0), steps: 0, combined: number(0.0), canon: vec![] }
}

fn run(cx: &mut ActionContext, action: Action) -> Effect {
    execute_action(&action, cx, &told(), 500)
}

fn said(a: &GalerieApp) -> &str {
    a.cx.overlay.toast.as_ref().map(|t| t.message.as_str()).unwrap_or("")
}

fn note(text: &str) -> Annotation {
    Annotation::Note { text: text.to_owned() }
}

#[test]
fn cycle_rating_progression() {
    let values = &[1u8, 2, 3, 4, 5];
    assert_eq!(next_cycle_value(None, values), Some(1));
    assert_eq!(next_cycle_value(Some(1), values), Some(2));
    assert_eq!(next_cycle_value(Some(5), values), None);
    assert_eq!(next_cycle_value(Some(99), values), Some(1));
}

#[test]
fn ratings_go_round() {
    let values = [3u8, 1, 2];
    let mut r = None;
    let mut seen = vec![];
    for _ in 0..4 {
        r = next_cycle_value(r, &values);
        seen.push(r);
    }
    assert_eq!(seen, vec![Some(3), Some(1), Some(2), None]);
}

#[test]
fn the_application_starts_with_all_photos() {
    let a = app(photos(3), vec![]);
    assert_eq!(a.cx.display, vec![0, 1, 2]);
    assert_eq!(a.last_tiling_cols, 3);
    assert_eq!(a.cx.app_state.background_color, BackgroundColor::Gray);
    assert!(a.presets.is_empty());
}

#[test]
fn actions_change_the_state() {
    let mut a = app(photos(20), vec![]);
    let next = Action::Navigate { direction: Direction::Next, count: 10 };
    assert!(matches!(run(&mut a.cx, next), Effect::Nothing));
    assert_eq!(a.cx.viewer.focused_index(), 10);
    assert!(a.cx.app_state.needs_scroll_to_selection);
    run(&mut a.cx, Action::NavigateTilingRow { direction: Direction::Next });
    assert_eq!(a.cx.viewer.focused_index(), 13);
    run(&mut a.cx, Action::SwitchMode { mode: ModeTarget::Single });
    assert!(matches!(a.cx.viewer, ViewerState::Single(_)));
    run(&mut a.cx, Action::ToggleSlideshow);
    assert!(a.cx.app_state.slideshow_active);
    assert_eq!(said(&a), "Slideshow started");
    run(&mut a.cx, Action::ToggleSlideshow);
    assert_eq!(said(&a), "Slideshow paused");
    run(&mut a.cx, Action::ToggleFilterSidebar);
    run(&mut a.cx, Action::ToggleHistogram);
    run(&mut a.cx, Action::ZoomSingleToOne);
    run(&mut a.cx, Action::ToggleFullscreen);
    run(&mut a.cx, Action::Quit);
    let s = a.cx.app_state;
    assert!(s.filter_sidebar_open && s.show_histogram && s.zoom_to_one_pending);
    assert!(s.is_fullscreen && s.fullscreen_pending == Some(true) && s.should_quit);
}

#[test]
fn a_rating_is_kept_in_the_gallery() {
    let mut a = app(gallery(2), vec![]);
    let action = Action::CycleRating { values: vec![4, 5] };
    let canon = a.cx.collection.photos_beside(0);
    let input = ActionInput { canon, ..told() };
    let effect = execute_action(&action, &mut a.cx, &input, 1);
    assert!(matches!(effect, Effect::SaveRating { path } if path == "/g.galerie"));
    assert_eq!(a.cx.collection.entries[0].data.rating, Some(4));
    assert_eq!(a.cx.collection.gallery_file("/g.galerie").unwrap().photos[0].rating, Some(4));
    rating_failed(&mut a.cx, "disk full", 2);
    assert_eq!(said(&a), "Rating error: disk full");
}

#[test]
fn a_filter_is_stacked_on_the_photo_in_focus() {
    let mut a = app(photos(2), vec![]);
    a.cx.cache.settle(0, None, None);
    let action = Action::ApplyFilter { filter: turned(90) };
    assert_eq!(work_for(&action, &a.cx), Work::Merge(Arithmetic::Nothing));
    let effect = run(&mut a.cx, action);
    assert!(matches!(effect, Effect::Filtered { index: 0, save: None }));
    filter_settled(&mut a.cx, 0, None, &vec![vec![]], 3);
    assert_eq!(said(&a), "Rotated 90°");
    assert!(!a.cx.cache.holds(0));
    a.cx.cache.settle(0, None, None);
    filter_settled(&mut a.cx, 0, Some("no".to_owned()), &vec![vec![]], 4);
    assert_eq!(said(&a), "Filter error: no");
    assert!(!a.cx.cache.holds(0));
}

#[test]
fn a_filter_goes_to_all_photos_in_turn() {
    let mut a = app(photos(2), vec![]);
    let filter = turned(90);
    assert!(matches!(
        run(&mut a.cx, Action::ApplyFilterToAll { filter: filter.clone() }),
        Effect::FilterAll
    ));
    let mut next = Some(0);
    while let Some(i) = next {
        apply_to_one(&mut a.cx, i, &filter, number(0.0), &vec![]);
        next = filter_all_settled(&mut a.cx, i, None, 5);
    }
    assert_eq!(said(&a), "Applied filter to 2 photos");
    for e in &a.cx.collection.entries {
        assert_eq!(e.data.filters, vec![turned(90)]);
    }
    a.cx.cache.settle(0, None, None);
    assert_eq!(filter_all_settled(&mut a.cx, 0, Some("bad".to_owned()), 6), None);
    assert_eq!(said(&a), "Filter error at 0: bad");
    assert!(!a.cx.cache.holds(0));
    let mut none = app(photos(0), vec![]);
    let effect = run(&mut none.cx, Action::ApplyFilterToAll { filter });
    assert!(matches!(effect, Effect::Nothing));
}

#[test]
fn a_script_is_told_of_the_photo() {
    let mut a = app(photos(1), vec![]);
    let action = Action::RunScript {
        path: "~/x.sh".to_owned(),
        args: vec!["%p".to_owned(), "%d1x%d2".to_owned()],
        pass_filters_stdin: false,
    };
    assert!(matches!(run(&mut a.cx, action.clone()), Effect::RunScript { index: 0 }));
    let path = "/x.sh".to_owned();
    let req = script_request(&a.cx, 0, &action, path.clone(), 4, 3, "[]".to_owned());
    assert_eq!(req.script_args, vec!["/0.jpg", "4x3"]);
    assert_eq!(req.script_path, "/x.sh");
    assert_eq!(req.stdin_content, None);
    let reads =
        Action::RunScript { path: path.clone(), args: vec![], pass_filters_stdin: true };
    let req = script_request(&a.cx, 0, &reads, path, 4, 3, "[]".to_owned());
    assert!(req.script_args.is_empty());
    assert_eq!(req.stdin_content, Some("[]".to_owned()));
    script_dispatched(&mut a.cx, true, 7);
    assert!(a.cx.app_state.script_running);
    run(&mut a.cx, action.clone());
    assert_eq!(said(&a), "Script already running");
    script_finished(&mut a.cx, ScriptResult { output: "bad".to_owned(), success: false }, 8);
    assert_eq!(said(&a), "Script failed: bad");
    assert!(!a.cx.app_state.script_running);
    script_dispatched(&mut a.cx, false, 9);
    assert_eq!(said(&a), "Failed to dispatch script");
    let mut none = app(photos(0), vec![]);
    run(&mut none.cx, action);
    assert_eq!(said(&none), "No photo selected");
}

#[test]
fn the_shown_size_follows_all_filters() {
    let photo = || Pixels { width: 100, height: 80, data: vec![0; 4 * 100 * 80] };
    let size = |stack: Vec<Filter>, given: Vec<Given>| {
        let mut run = FilterRun::new(photo(), stack);
        for g in given {
            run.step(g);
        }
        displayed_dimensions(&run)
    };
    let white = Rgba { r: 255, g: 255, b: 255, a: 255 };
    let border = Filter::Border { thickness: 10, color: white };
    assert_eq!(size(vec![], vec![]), (100, 80));
    assert_eq!(size(vec![border.clone()], vec![Given::Nothing]), (120, 100));
    let both = vec![border, turned(90)];
    assert_eq!(size(both, vec![Given::Nothing, Given::Nothing]), (100, 120));
    let cap = Filter::CapSize { max_px: 50 };
    assert_eq!(size(vec![cap], vec![Given::Size { width: 50, height: 40 }]), (50, 40));
    let crop = Filter::Crop {
        x: number(0.0),
        y: number(0.0),
        width: number(0.5),
        height: number(0.5),
    };
    let half = Given::Region { x: 0, y: 0, width: 50, height: 40 };
    assert_eq!(size(vec![crop], vec![half]), (50, 40));
    let mut a = app(gallery(1), vec![]);
    a.cx.collection.set_galerie_filters("/g.galerie", vec![turned(90)], vec![]);
    assert_eq!(script_filters(&a.cx, 0), vec![turned(90)]);
}

#[test]
fn keys_run_what_they_are_bound_to() {
    let mut a = app(photos(2), vec![]);
    assert_eq!(press(&mut a, Key::Q), KeyOutcome::Run(Action::Quit));
    assert_eq!(press(&mut a, Key::B), KeyOutcome::CycleBackground);
    assert_eq!(press(&mut a, Key::W), KeyOutcome::Nothing);
    assert_eq!(
        a.key_pressed(Key::Plus, false, true, false),
        KeyOutcome::Run(Action::ZoomTiling { delta: 1 })
    );
    assert_eq!(a.key_pressed(Key::Q, true, false, false), KeyOutcome::Nothing);
    assert_eq!(press(&mut a, Key::N), KeyOutcome::Nothing);
    assert!(a.cx.app_state.show_annotations && a.annotation_focus_pending);
    press(&mut a, Key::Escape);
    assert!(!a.cx.app_state.show_annotations);
    a.cx.app_state.is_fullscreen = true;
    press(&mut a, Key::Escape);
    assert_eq!(a.begin_input(), Some(false));
    assert_eq!(a.begin_input(), None);
    assert_eq!(
        press(&mut a, Key::Escape),
        KeyOutcome::Run(Action::SwitchMode { mode: ModeTarget::Tiling })
    );
    a.toggle_annotations();
    a.escape_while_typing();
    assert!(!a.cx.app_state.show_annotations);
}

#[test]
fn the_only_edited_gallery_is_toggled_at_once() {
    let mut a = app(photos(2), vec![edited("best")]);
    let outcome = press(&mut a, Key::T);
    assert_eq!(outcome, KeyOutcome::ToggleMembership { gallery: 0, announce: true });
    assert!(a.toggle_membership(0));
    assert!(a.edit_galleries[0].contains("/0.jpg"));
    a.membership_settled(0, true, true, None, 5);
    assert_eq!(said(&a), "Added to best");
    assert!(!a.toggle_membership(0));
    a.membership_settled(0, false, true, None, 6);
    assert_eq!(said(&a), "Removed from best");
    a.membership_settled(0, false, true, Some("full".to_owned()), 7);
    assert_eq!(said(&a), "Save error: full");
}

#[test]
fn several_edited_galleries_are_listed() {
    let mut a = app(photos(2), vec![edited("a"), edited("b")]);
    assert_eq!(press(&mut a, Key::T), KeyOutcome::Nothing);
    assert!(a.gallery_selector_open);
    press(&mut a, Key::J);
    press(&mut a, Key::ArrowDown);
    assert_eq!(a.gallery_selector_cursor, 1);
    assert_eq!(
        press(&mut a, Key::Space),
        KeyOutcome::ToggleMembership { gallery: 1, announce: false }
    );
    press(&mut a, Key::K);
    press(&mut a, Key::ArrowUp);
    assert_eq!(a.gallery_selector_cursor, 0);
    assert_eq!(press(&mut a, Key::Q), KeyOutcome::Nothing);
    press(&mut a, Key::Escape);
    assert!(!a.gallery_selector_open);
}

#[test]
fn the_background_is_kept_in_the_gallery() {
    let mut a = app(gallery(1), vec![edited("x"), edited("y")]);
    assert_eq!(a.cycle_background(), Some("/g.galerie".to_owned()));
    assert_eq!(a.cx.app_state.background_color, BackgroundColor::White);
    assert_eq!(a.cx.collection.galerie_background(), Some(BackgroundColor::White));
    a.background_settled(None, &vec![false, true], 5);
    assert_eq!(said(&a), "Background: white");
    assert_eq!(a.edit_galleries[0].background_color, None);
    assert_eq!(a.edit_galleries[1].background_color, Some(BackgroundColor::White));
    a.background_settled(Some("full".to_owned()), &vec![true, true], 6);
    assert_eq!(said(&a), "Background save error: full");
    assert_eq!(a.edit_galleries[0].background_color, None);
    let mut plain = app(photos(1), vec![]);
    assert_eq!(plain.cycle_background(), None);
}

#[test]
fn the_slideshow_moves_on_in_time() {
    let mut a = app(photos(2), vec![]);
    assert_eq!(a.tick_slideshow(1000, 50), Tick::Off);
    a.cx.app_state.slideshow_active = true;
    a.cx.app_state.slideshow_last_at = 1000;
    assert_eq!(a.tick_slideshow(1020, 50), Tick::Wait(30));
    assert_eq!(a.tick_slideshow(900, 50), Tick::Wait(50));
    assert_eq!(a.tick_slideshow(1050, 50), Tick::Moved);
    assert_eq!(a.cx.viewer.focused_index(), 1);
    assert_eq!(a.tick_slideshow(1050, 50), Tick::Wait(50));
    assert_eq!(a.tick_slideshow(1100, 50), Tick::Moved);
    assert_eq!(a.cx.viewer.focused_index(), 0);
}

#[test]
fn a_search_looks_through_notes_and_groups() {
    let mut c = photos(4);
    c.entries[0].data.annotations = vec![note("Évora by Night")];
    c.entries[1].data.annotations = vec![
        note("night"),
        Annotation::ClusterAssignment { namespace: "clip".to_owned(), cluster_id: 3 },
    ];
    c.entries[2].data.annotations =
        vec![Annotation::ClusterAssignment { namespace: "clip".to_owned(), cluster_id: 3 }];
    assert_eq!(search(&c.entries, "NIGHT"), vec![0, 1]);
    assert_eq!(search(&c.entries, "éVORA night"), vec![0]);
    assert_eq!(search(&c.entries, "cluster:3"), vec![1, 2]);
    assert_eq!(search(&c.entries, "cluster:3 night"), vec![1]);
    assert_eq!(search(&c.entries, "cluster:x"), Vec::<usize>::new());
    assert_eq!(search(&c.entries, "  "), vec![0, 1, 2, 3]);
}

#[test]
fn the_photo_in_focus_survives_a_search() {
    let mut c = photos(3);
    c.entries[1].data.annotations = vec![note("sea")];
    c.entries[2].data.annotations = vec![note("sea")];
    let mut a = app(c, vec![]);
    a.cx.viewer.navigate(Direction::Next, 2, 3);
    a.search_query = "sea".to_owned();
    a.update_filter();
    assert_eq!(a.cx.display, vec![1, 2]);
    assert_eq!(a.cx.viewer.focused_index(), 1);
    assert_eq!(
        a.tiling_header("2.jpg"),
        Some("Page 1/1  ·  1/2  ·  2.jpg (filtered: 2/3 total)".to_owned())
    );
    press(&mut a, Key::Escape);
    assert_eq!(a.search_query, "");
    assert_eq!(a.cx.display, vec![0, 1, 2]);
    assert_eq!(a.cx.viewer.focused_index(), 2);
    assert_eq!(a.tiling_header("x"), Some("Page 1/1  ·  2/3  ·  x".to_owned()));
    a.search_query = "desert".to_owned();
    a.update_filter();
    assert!(a.cx.display.is_empty());
    a.clear_search();
    assert_eq!(a.cx.display.len(), 3);
}

#[test]
fn similar_photos_are_ranked() {
    let scored = |xs: &[f32]| -> Vec<Scored> {
        xs.iter().enumerate().map(|(index, s)| Scored { index, score: number(*s) }).collect()
    };
    let four = scored(&[0.1, 0.9, 0.5, 0.9]);
    assert_eq!(rank(&four, 3), vec![1, 3, 2]);
    let mut a = app(photos(4), vec![]);
    assert_eq!(a.similar_query(), Some(0));
    a.show_ranked(&four, 3, "\"clip\"", 5);
    assert_eq!(a.cx.display, vec![1, 3, 2]);
    assert_eq!(said(&a), "Showing 3 most similar (namespace: \"clip\")");
    a.note_similar("clip".to_owned(), 3, None, 0);
    a.toggle_similar_panel();
    a.set_similar(7, Some(number(0.5)));
    let s = a.similar_state.as_ref().unwrap();
    assert!(s.count == 7 && s.panel_open && s.threshold.is_none() && s.query_ci == 0);
    a.show_ranked(&vec![], 3, "\"clip\"", 5);
    assert_eq!(said(&a), "No photos with embeddings (namespace: \"clip\")");
    a.no_embedding("\"clip\"", 6);
    assert_eq!(said(&a), "No embedding (namespace: \"clip\") for this photo");
    assert_eq!(a.cx.display, vec![1, 3, 2]);
}

#[test]
fn similar_photos_keep_their_distance() {
    let places = [0.0f32, 0.1, 0.5, 0.55, 1.0];
    let scored: Vec<Scored> = places
        .iter()
        .enumerate()
        .map(|(index, p)| Scored { index, score: number(1.0 - p) })
        .collect();
    let mut run = DiverseRun::new(&scored, 3);
    while let Some(i) = run.candidate() {
        let distances =
            run.taken.iter().map(|t| number((places[i] - places[*t]).abs())).collect();
        run.consider(&distances, number(0.3));
    }
    assert_eq!(run.taken, vec![0, 2, 4]);
    let mut a = app(photos(5), vec![]);
    a.show_diverse(run.taken, true, "\"clip\"", 5);
    assert_eq!(a.cx.display, vec![0, 2, 4]);
    assert_eq!(said(&a), "Showing 3 diverse similar (namespace: \"clip\")");
    a.show_diverse(vec![], true, "\"clip\"", 5);
    assert_eq!(said(&a), "No diverse photos found (threshold may be too high)");
    a.show_diverse(vec![], false, "\"clip\"", 5);
    assert_eq!(said(&a), "No photos with embeddings (namespace: \"clip\")");
}

#[test]
fn candidates_are_those_with_a_vector() {
    let mut c = photos(2);
    c.entries[1].data.annotations = vec![Annotation::embedding("clip", &vec![number(2.0)])];
    let found = candidates(&c.entries, "clip");
    assert_eq!(found.len(), 1);
    assert_eq!(found[0].index, 1);
    assert_eq!(found[0].vector, vec![number(2.0)]);
}

#[test]
fn open_rows_move_up() {
    let open: HashSet<usize> = [0, 2, 3, 5].into_iter().collect();
    let after = accordion_after_remove(&open, 2);
    assert_eq!(after, [0, 2, 4].into_iter().collect::<HashSet<usize>>());
    assert_eq!(accordion_after_remove(&HashSet::new(), 0), HashSet::new());
}

#[test]
fn filters_are_edited_with_their_rows() {
    let mut a = app(photos(1), vec![]);
    let mut stack = vec![];
    a.add_filter(FilterList::Photo, &mut stack, turned(1));
    a.add_filter(FilterList::Photo, &mut stack, turned(2));
    a.add_filter(FilterList::Before, &mut vec![], turned(3));
    assert_eq!(a.filter_accordion_open, [0, 1].into_iter().collect::<HashSet<usize>>());
    a.remove_filter(FilterList::Photo, &mut stack, 0);
    assert_eq!(stack, vec![turned(2)]);
    assert_eq!(a.filter_accordion_open, [0].into_iter().collect::<HashSet<usize>>());
    a.set_row_open(FilterList::Photo, 0, false);
    a.set_row_open(FilterList::After, 4, true);
    assert!(a.filter_accordion_open.is_empty());
    assert!(a.gallery_pre_accordion_open.contains(&0));
    assert!(a.gallery_post_accordion_open.contains(&4));
}

#[test]
fn presets_stand_for_their_filters() {
    let mut a = app(gallery(2), vec![]);
    a.preset_save_name = "dusk".to_owned();
    let stack = vec![turned(90), Filter::Preset { name: "old".to_owned() }];
    let source = a.store_preset(&stack, 5).unwrap();
    assert!(matches!(&source, PresetSource::Collection(p) if p == "/g.galerie"));
    a.preset_stored(&stack, source, None, 6);
    assert_eq!(a.preset_save_name, "");
    assert_eq!(
        a.presets[0].preset,
        FilterPreset { name: "dusk".to_owned(), filters: vec![turned(90)] }
    );
    assert_eq!(a.cx.collection.galerie_presets("/g.galerie").len(), 1);
    let canon = a.cx.collection.photos_beside(0);
    assert_eq!(a.insert_preset(0, 0, &canon), Some("/g.galerie".to_owned()));
    a.photo_filters_settled(0, None, 7);
    a.cx.collection.set_galerie_filters("/g.galerie", vec![Filter::FlipVertical], vec![]);
    assert_eq!(a.effective_filters(0), vec![Filter::FlipVertical, turned(90)]);
    assert_eq!(a.effective_filters(1), vec![Filter::FlipVertical]);

    a.cx.cache.settle(0, None, None);
    a.cx.cache.settle(1, None, None);
    assert!(matches!(a.edit_preset(0, vec![turned(45)]), Some(PresetSource::Collection(_))));
    assert_eq!(a.effective_filters(0), vec![Filter::FlipVertical, turned(45)]);
    assert!(!a.cx.cache.holds(0));
    assert!(a.cx.cache.holds(1));
    assert_eq!(
        a.cx.collection.galerie_presets("/g.galerie")[0].filters,
        vec![turned(45)]
    );
    assert!(a.delete_preset(0).is_some());
    assert!(a.presets.is_empty());
    assert!(a.cx.collection.galerie_presets("/g.galerie").is_empty());
    assert_eq!(a.effective_filters(0), vec![Filter::FlipVertical]);
    a.preset_save_failed("full", 8);
    assert_eq!(said(&a), "Preset save error: full");
    a.preset_delete_failed("full", 9);
    assert_eq!(said(&a), "Preset delete error: full");
}

#[test]
fn a_preset_needs_a_file() {
    let mut a = app(photos(1), vec![]);
    assert!(a.store_preset(&vec![], 5).is_none());
    assert_eq!(said(&a), "");
    a.preset_save_name = "dusk".to_owned();
    assert!(a.store_preset(&vec![], 5).is_none());
    assert_eq!(said(&a), "No galerie file loaded — cannot save preset.");
    let mut b = app(photos(1), vec![edited("x")]);
    b.preset_save_name = "dusk".to_owned();
    let source = b.store_preset(&vec![turned(1)], 5).unwrap();
    assert!(matches!(source, PresetSource::EditGallery(0)));
    assert_eq!(b.edit_galleries[0].presets.len(), 1);
    b.preset_stored(&vec![turned(1)], source, Some("full".to_owned()), 6);
    assert_eq!(said(&b), "Preset save error: full");
    assert!(b.presets.is_empty());
    b.rebuild_presets();
    assert_eq!(b.presets.len(), 1);
    assert!(matches!(b.presets[0].source, PresetSource::EditGallery(0)));
}

#[test]
fn filters_of_photos_and_galleries_are_kept() {
    let mut a = app(gallery(1), vec![]);
    a.cx.cache.settle(0, None, None);
    let canon = a.cx.collection.photos_beside(0);
    let save = a.set_photo_filters(0, vec![turned(5)], &canon);
    assert_eq!(save, Some("/g.galerie".to_owned()));
    assert_eq!(a.cx.collection.entries[0].data.filters, vec![turned(5)]);
    a.photo_filters_settled(0, Some("full".to_owned()), 5);
    assert_eq!(said(&a), "Filter error: full");
    assert!(!a.cx.cache.holds(0));
    a.cx.cache.settle(0, None, None);
    a.photo_filters_settled(0, None, 6);
    assert!(!a.cx.cache.holds(0));

    a.cx.cache.settle(0, None, None);
    let save = a.set_gallery_filters(vec![turned(1)], vec![turned(2)]);
    assert_eq!(save, Some("/g.galerie".to_owned()));
    assert_eq!(a.cx.collection.galerie_filters(), Some((vec![turned(1)], vec![turned(2)])));
    a.gallery_filters_settled(Some("full".to_owned()), 7);
    assert_eq!(said(&a), "Gallery filter error: full");
    assert!(!a.cx.cache.holds(0));
    a.cx.cache.settle(0, None, None);
    a.gallery_filters_settled(None, 8);
    assert!(!a.cx.cache.holds(0));
    assert_eq!(app(photos(1), vec![]).set_gallery_filters(vec![], vec![]), None);
}

#[test]
fn notes_are_added_and_removed() {
    let mut a = app(gallery(1), vec![]);
    a.annotation_input = "   ".to_owned();
    assert_eq!(a.submit_annotation(), None);
    a.annotation_input = " sea ".to_owned();
    let typed = a.submit_annotation();
    assert_eq!(typed, Some("sea".to_owned()));
    assert_eq!(a.annotation_input, "");
    let canon = a.cx.collection.photos_beside(0);
    assert_eq!(a.annotate(0, None, typed, &canon), Some("/g.galerie".to_owned()));
    assert_eq!(a.cx.collection.entries[0].data.annotations, vec![note("sea")]);
    a.search_query = "sea".to_owned();
    a.annotations_settled(None, 5);
    assert_eq!(a.cx.display, vec![0]);
    a.annotate(0, Some(0), Some("sky".to_owned()), &canon);
    assert_eq!(a.cx.collection.entries[0].data.annotations, vec![note("sky")]);
    a.annotations_settled(None, 6);
    assert!(a.cx.display.is_empty());
    a.annotations_settled(Some("full".to_owned()), 7);
    assert_eq!(said(&a), "Annotation error: full");
}

#[test]
fn a_photo_is_opened_moved_and_sized() {
    let mut a = app(photos(5), vec![]);
    a.open_tile(3);
    assert_eq!(a.cx.viewer.focused_index(), 3);
    let pan = Pan { x: number(4.0), y: number(-2.0) };
    a.pan_to(pan);
    assert!(matches!(a.cx.viewer, ViewerState::Single(s) if s.pan == pan));
    a.zoom_to_one(number(2.5));
    assert!(matches!(a.cx.viewer, ViewerState::Single(s) if s.zoom == number(1.0)));
    a.cx.app_state.zoom_to_one_pending = true;
    a.zoom_to_one(number(2.5));
    assert!(!a.cx.app_state.zoom_to_one_pending);
    assert!(matches!(
        a.cx.viewer,
        ViewerState::Single(s) if s.zoom == number(2.5) && s.pan.x == number(0.0)
    ));
    assert_eq!(a.tiling_header("x"), None);
}

#[test]
fn the_window_is_labelled() {
    let grid = ViewerState::Tiling(TilingState { page: 0, cols: 3, selected: 0 });
    assert_eq!(mode_label(&grid), "⊞ 3×3");
    let mut a = app(photos(2), vec![edited("best")]);
    a.open_tile(0);
    assert_eq!(mode_label(&a.cx.viewer), "⬛ Single");
    assert_eq!(photos_label(12), "12 photos");
    assert_eq!(gallery_label(&a.edit_galleries), Some("✏ best".to_owned()));
    assert_eq!(gallery_label(&vec![edited("a"), edited("b")]), Some("✏ 2 galleries".to_owned()));
    assert_eq!(gallery_label(&vec![]), None);
    assert_eq!(annotations_label(0), "✎");
    assert_eq!(annotations_label(3), "✎ 3");
    assert_eq!(nothing_label(true), "No images found.");
    assert_eq!(nothing_label(false), "No results.");
    assert_eq!(selector_line("x", true), "✓  x");
    assert_eq!(selector_line("x", false), "    x");
    assert_eq!(membership_line("x", true), "✓ x");
    assert_eq!(membership_line("x", false), "· x");
    assert!(!is_in_any(&a.edit_galleries, "/0.jpg"));
    a.toggle_membership(0);
    assert!(is_in_any(&a.edit_galleries, "/0.jpg"));
}

#[test]
fn a_wider_grid_is_come_back_to() {
    let mut a = app(photos(30), vec![]);
    run(&mut a.cx, Action::ZoomTiling { delta: -1 });
    a.begin_input();
    assert_eq!(a.last_tiling_cols, 4);
    assert_eq!(a.cx.tile_count, 16);
    run(&mut a.cx, Action::SwitchMode { mode: ModeTarget::Single });
    a.begin_input();
    run(&mut a.cx, Action::SwitchMode { mode: ModeTarget::Toggle });
    assert!(matches!(a.cx.viewer, ViewerState::Tiling(s) if s.cols == 4));
}

#[test]
fn a_photo_is_loaded_through_the_application() {
    let mut a = app(photos(1), vec![]);
    let l = a.cx.cache.get_or_request(0, None);
    assert_eq!(l.state, LoadState::NotRequested);
    a.cx.cache.note_request(0, None);
    a.cx.cache.settle(0, None, None);
    assert_eq!(a.cx.cache.get_or_request(0, None).state, LoadState::Ready);
    let data = PhotoData { rating: Some(1), ..PhotoData::default() };
    a.cx.collection.update_data(0, data, &vec![]);
    assert!(a.cx.cache.holds(0));
}

#[test]
fn moves_that_overflow_are_found_beforehand() {
    let mut a = app(photos(3), vec![]);
    let by = |count| Action::Navigate { direction: Direction::Next, count };
    assert!(can_execute(&by(usize::MAX), &a.cx, &told()));
    a.cx.viewer.navigate(Direction::Next, 1, 3);
    assert!(!can_execute(&by(usize::MAX), &a.cx, &told()));
    assert!(can_execute(&by(5), &a.cx, &told()));
    let back = Action::Navigate { direction: Direction::Prev, count: usize::MAX };
    assert!(can_execute(&back, &a.cx, &told()));
    a.open_tile(2);
    assert!(can_execute(&by(usize::MAX), &a.cx, &told()));
    assert!(can_execute(&by(usize::MAX), &app(photos(0), vec![]).cx, &told()));
    assert!(can_execute(&Action::Quit, &a.cx, &told()));
    let g = gallery(2);
    assert!(g.fits(0, 2) && !g.fits(0, 3));
    assert!(photos(2).fits(0, 7));
}

#[test]
fn zooming_in_changes_the_grid_where_there_is_one() {
    let mut a = app(photos(50), vec![]);
    a.cx.viewer = ViewerState::Tiling(TilingState { page: 0, cols: 3, selected: 5 });
    let action = Action::ZoomSingle { delta: number(1.0) };
    assert_eq!(work_for(&action, &a.cx), Work::GridSteps { delta: number(1.0) });
    let input = ActionInput { steps: 1, ..told() };
    assert!(can_execute(&action, &a.cx, &input));
    execute_action(&action, &mut a.cx, &input, 5);
    let finer = ViewerState::Tiling(TilingState { page: 1, cols: 2, selected: 1 });
    assert_eq!(a.cx.viewer, finer);
    let mut b = app(photos(50), vec![]);
    b.cx.viewer = ViewerState::Tiling(TilingState { page: 0, cols: 3, selected: 5 });
    run(&mut b.cx, Action::ZoomTiling { delta: 1 });
    assert_eq!(b.cx.viewer, finer);
    assert!(!can_execute(&action, &a.cx, &ActionInput { steps: i32::MIN, ..told() }));
}
