use galerie_montsouris::image_cache::{
    is_adequate_quality, is_better_quality, tile_size, ImageCache, LoadState,
};
use galerie_montsouris::pixels::ImageHistogram;

fn histogram(n: u32) -> ImageHistogram {
    ImageHistogram { luma: [n; 256], r: [n; 256], g: [n; 256], b: [n; 256] }
}

#[test]
fn qualities_are_ordered() {
    assert!(is_better_quality(None, Some(100)));
    assert!(is_better_quality(None, None));
    assert!(!is_better_quality(Some(100), None));
    assert!(is_better_quality(Some(100), Some(100)));
    assert!(!is_better_quality(Some(99), Some(100)));
    assert!(is_adequate_quality(None, Some(100)));
    assert!(!is_adequate_quality(Some(100), None));
    assert!(is_adequate_quality(Some(100), Some(64)));
    assert!(!is_adequate_quality(Some(64), Some(100)));
    assert_eq!(tile_size(10), 64);
    assert_eq!(tile_size(200), 200);
}

#[test]
fn a_photo_is_asked_for_once() {
    let mut c = ImageCache::new(2);
    let l = c.get_or_request(7, Some(100));
    assert_eq!(l.state, LoadState::NotRequested);
    assert_eq!(l.request, Some(Some(100)));
    c.note_request(7, Some(100));
    let l = c.get_or_request(7, Some(100));
    assert_eq!(l.state, LoadState::Pending);
    assert_eq!(l.request, None);
    let l = c.get_or_request(7, None);
    assert_eq!(l.state, LoadState::Pending);
    assert_eq!(l.request, Some(None));
}

#[test]
fn a_thumbnail_is_shown_while_more_is_asked_for() {
    let mut c = ImageCache::new(2);
    assert!(c.settle(1, Some(100), None));
    let l = c.get_or_request(1, None);
    assert_eq!(l.state, LoadState::Ready);
    assert_eq!(l.request, Some(None));
    c.note_request(1, None);
    assert_eq!(c.get_or_request(1, None).request, None);
    assert!(c.settle(1, None, Some(histogram(3))));
    assert!(!c.settle(1, Some(100), None));
    let l = c.get_or_request(1, None);
    assert_eq!(l.state, LoadState::Ready);
    assert_eq!(l.request, None);
    assert_eq!(c.get_histogram(1), Some(&histogram(3)));
    assert_eq!(c.get_histogram(2), None);
}

#[test]
fn the_photo_used_longest_ago_makes_room() {
    let mut c = ImageCache::new(2);
    c.settle(1, None, None);
    c.settle(2, None, None);
    assert_eq!(c.get_or_request(1, None).state, LoadState::Ready);
    c.settle(3, None, None);
    assert!(c.holds(1));
    assert!(!c.holds(2));
    assert!(c.holds(3));
}

#[test]
fn a_cache_holds_at_least_one_photo() {
    let mut c = ImageCache::new(0);
    c.settle(1, None, None);
    assert!(c.holds(1));
    c.settle(2, None, None);
    assert!(!c.holds(1));
    assert!(c.holds(2));
}

#[test]
fn failures_are_told_until_forgotten() {
    let mut c = ImageCache::new(2);
    c.note_request(1, None);
    c.fail(1, "gone".to_owned());
    let l = c.get_or_request(1, None);
    assert_eq!(l.state, LoadState::Error("gone".to_owned()));
    assert_eq!(l.request, None);
    c.invalidate(1);
    let l = c.get_or_request(1, None);
    assert_eq!(l.state, LoadState::NotRequested);
    assert_eq!(l.request, Some(None));
}

#[test]
fn forgetting_takes_images_and_histograms() {
    let mut c = ImageCache::new(3);
    c.settle(1, None, Some(histogram(1)));
    c.settle(2, None, Some(histogram(2)));
    c.invalidate(1);
    assert!(!c.holds(1));
    assert_eq!(c.get_histogram(1), None);
    assert!(c.holds(2));
    c.invalidate_all();
    assert!(!c.holds(2));
    assert_eq!(c.get_histogram(2), None);
}
