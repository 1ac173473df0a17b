use galerie_montsouris::gallery::{PhotoData, PhotoEntry};
use galerie_montsouris::scalar::Scalar;
use galerie_montsouris::viewer::{
    can_tile, Direction, Pan, SingleState, TilingState, ViewerState, MAX_COLS,
};

fn number(x: f32) -> Scalar {
    Scalar { bits: x.to_bits() }
}

fn single(current_index: usize) -> ViewerState {
    ViewerState::Single(SingleState {
        current_index,
        zoom: number(1.0),
        pan: Pan { x: number(0.0), y: number(0.0) },
    })
}

fn dummy_entries(n: usize) -> Vec<PhotoEntry> {
    (0..n)
        .map(|i| PhotoEntry {
            index: i,
            path: format!("/tmp/photo{i}.jpg"),
            hash: format!("{:016x}", i),
            data: PhotoData::default(),
            galerie_source: None,
        })
        .collect()
}

#[test]
fn single_navigate_wraps() {
    let mut v = single(0);
    v.navigate(Direction::Prev, 1, 3);
    assert_eq!(v.focused_index(), 2);
    v.navigate(Direction::Next, 1, 3);
    assert_eq!(v.focused_index(), 0);
}

#[test]
fn single_navigate_by_count() {
    let mut v = single(0);
    v.navigate(Direction::Next, 10, 100);
    assert_eq!(v.focused_index(), 10);
    v.navigate(Direction::Prev, 3, 100);
    assert_eq!(v.focused_index(), 7);
}

#[test]
fn tiling_page_entries() {
    let entries = dummy_entries(10);
    let s = TilingState::new(4);
    let page0 = s.page_entries(&entries);
    assert_eq!(page0.len(), 4);
    assert_eq!(page0[0].index, 0);
}

#[test]
fn tiling_total_pages() {
    let s = TilingState::new(4);
    assert_eq!(s.total_pages(10), 3);
    assert_eq!(s.total_pages(8), 2);
    assert_eq!(s.total_pages(0), 0);
}

#[test]
fn tiling_navigate_within_page() {
    let mut v = ViewerState::new_tiling(9);
    v.navigate(Direction::Next, 1, 20);
    assert_eq!(v.focused_index(), 1);
    v.navigate(Direction::Next, 1, 20);
    assert_eq!(v.focused_index(), 2);
}

#[test]
fn tiling_navigate_crosses_page_boundary() {
    let mut v = ViewerState::Tiling(TilingState { page: 0, cols: 3, selected: 8 });
    v.navigate(Direction::Next, 1, 20);
    assert_eq!(v.focused_index(), 9);
    assert_eq!(v, ViewerState::Tiling(TilingState { page: 1, cols: 3, selected: 0 }));
}

#[test]
fn tiling_navigate_by_10() {
    let mut v = ViewerState::new_tiling(9);
    v.navigate(Direction::Next, 10, 100);
    assert_eq!(v.focused_index(), 10);
    assert_eq!(v, ViewerState::Tiling(TilingState { page: 1, cols: 3, selected: 1 }));
}

#[test]
fn tiling_navigate_wraps_collection() {
    let mut v = ViewerState::Tiling(TilingState { page: 0, cols: 3, selected: 0 });
    v.navigate(Direction::Prev, 1, 10);
    assert_eq!(v.focused_index(), 9);
}

#[test]
fn zoom_in_decreases_cols_keeps_focus() {
    let mut v = ViewerState::Tiling(TilingState { page: 0, cols: 3, selected: 5 });
    v.zoom_tiling(1, 50);
    assert_eq!(v.focused_index(), 5);
    assert_eq!(v, ViewerState::Tiling(TilingState { page: 1, cols: 2, selected: 1 }));
}

#[test]
fn zoom_out_increases_cols_keeps_focus() {
    let mut v = ViewerState::Tiling(TilingState { page: 1, cols: 2, selected: 1 });
    v.zoom_tiling(-1, 50);
    assert_eq!(v.focused_index(), 5);
    assert_eq!(v, ViewerState::Tiling(TilingState { page: 0, cols: 3, selected: 5 }));
}

#[test]
fn zoom_clamped_at_min() {
    let mut v = ViewerState::Tiling(TilingState { page: 0, cols: 1, selected: 0 });
    v.zoom_tiling(1, 10);
    assert!(matches!(v, ViewerState::Tiling(s) if s.cols == 1));
}

#[test]
fn zoom_clamped_at_max() {
    let mut v = ViewerState::Tiling(TilingState { page: 0, cols: MAX_COLS, selected: 0 });
    v.zoom_tiling(-1, 100);
    assert!(matches!(v, ViewerState::Tiling(s) if s.cols == MAX_COLS));
}

#[test]
fn visible_indices_single() {
    let v = single(5);
    let vis = v.visible_indices(10);
    assert!(vis.contains(&4));
    assert!(vis.contains(&5));
    assert!(vis.contains(&6));
}

#[test]
fn toggle_switches_mode() {
    let mut v = ViewerState::new_tiling(9);
    v.toggle(9);
    assert!(matches!(v, ViewerState::Single(_)));
    v.toggle(9);
    assert!(matches!(v, ViewerState::Tiling(_)));
}

#[test]
fn grid_is_the_smallest_square_with_room() {
    assert_eq!(TilingState::new(9).cols, 3);
    assert_eq!(TilingState::new(10).cols, 4);
    assert_eq!(TilingState::new(0).cols, 1);
    assert_eq!(TilingState::new(1).cols, 1);
}

#[test]
fn moving_forth_and_back_returns() {
    for start in 0..20 {
        let mut v = single(start);
        v.navigate(Direction::Next, 13, 20);
        v.navigate(Direction::Prev, 13, 20);
        assert_eq!(v.focused_index(), start);
    }
}

#[test]
fn nothing_moves_in_an_empty_collection() {
    let mut v = single(0);
    v.navigate(Direction::Next, 1, 0);
    assert_eq!(v, single(0));
}

#[test]
fn zoom_stays_in_bounds_and_resets() {
    let mut v = single(2);
    v.zoom_single(number(100.0));
    assert!(matches!(v, ViewerState::Single(s) if s.zoom == number(20.0)));
    v.zoom_single(number(0.01));
    assert!(matches!(v, ViewerState::Single(s) if s.zoom == number(0.1)));
    v.zoom_single(number(1.25));
    assert!(matches!(v, ViewerState::Single(s) if s.zoom == number(1.25) && !s.is_fitted()));
    v.reset_single_zoom();
    assert_eq!(v, single(2));
    assert!(matches!(v, ViewerState::Single(s) if s.is_fitted()));
}

#[test]
fn a_negative_zero_pan_counts_as_none() {
    let s = SingleState {
        current_index: 0,
        zoom: number(1.00005),
        pan: Pan { x: number(-0.0), y: number(0.0) },
    };
    assert!(s.is_fitted());
    assert!(!(SingleState { zoom: number(1.0002), ..s }).is_fitted());
}

#[test]
fn selection_is_clamped_on_the_last_page() {
    let mut s = TilingState { page: 2, cols: 2, selected: 3 };
    s.clamp_selected(9);
    assert_eq!(s.selected, 0);
    assert_eq!(s.page_range(9), 8..9);
    assert_eq!(s.focused_abs(), 8);
    assert_eq!(s.tile_count(), 4);
}

#[test]
fn leaving_a_photo_brings_back_its_page() {
    let mut v = single(12);
    v.switch_to_tiling(9);
    assert_eq!(v, ViewerState::Tiling(TilingState { page: 1, cols: 3, selected: 3 }));
    v.switch_to_single(4);
    assert_eq!(v, single(4));
}

#[test]
fn a_photo_is_fitted_until_it_is_moved() {
    let fitted = SingleState {
        current_index: 0,
        zoom: number(1.00001),
        pan: Pan { x: number(-0.0), y: number(0.0) },
    };
    assert!(fitted.is_fitted());
    assert!(!SingleState { zoom: number(2.0), ..fitted }.is_fitted());
    assert!(!SingleState { pan: Pan { x: number(1.0), y: number(0.0) }, ..fitted }.is_fitted());
    assert!(can_tile(9));
    assert!(!can_tile(usize::MAX));
}
