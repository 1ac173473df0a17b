use galerie_montsouris::cli::{
    classify_args, export_failure, export_name, init_gallery, snapshot_gallery, PathArg,
};
use galerie_montsouris::collection::{HashedFile, PhotoCollection};
use galerie_montsouris::gallery::InputArg;
use galerie_montsouris::overlay::{rating_badge, OverlayState};
use galerie_montsouris::text::{
    contains, decimal, filled_lines, hex, is_in_order, join, padded, parse_u32, replace, same,
    signed_decimal, sort, starts_with, trim, words,
};

#[test]
fn texts_are_taken_apart() {
    assert_eq!(trim(" \t\u{a0}a b\n"), " \t\u{a0}a b\n".trim());
    assert_eq!(words("  a\u{2003}b\tc "), vec!["a", "b", "c"]);
    assert_eq!(filled_lines("a\n\n b \r\n"), vec!["a", "b"]);
    assert!(starts_with("cluster:3", "cluster:"));
    assert!(contains("evening", "ven") && contains("x", "") && !contains("x", "xy"));
    assert!(same("é", "é") && !same("a", "b"));
    assert_eq!(replace("%p and %p", "%p", "x"), "x and x");
    assert_eq!(join(&vec!["a".to_owned(), "b".to_owned()], ", "), "a, b");
}

#[test]
fn numbers_are_written_and_read() {
    for n in [0u64, 7, 10, 12345, u64::MAX] {
        assert_eq!(decimal(n), n.to_string());
        assert_eq!(hex(n, 16), format!("{n:016x}"));
        assert_eq!(padded(n, 4), format!("{n:04}"));
    }
    for n in [0i32, -1, 42, i32::MIN, i32::MAX] {
        assert_eq!(signed_decimal(n), n.to_string());
    }
    for s in ["0", "42", "+7", "-1", "", "4294967295", "4294967296", "1a", "007", "+"] {
        assert_eq!(parse_u32(s), s.parse::<u32>().ok(), "{}", s);
    }
}

#[test]
fn texts_are_sorted_as_their_bytes_are() {
    let all: Vec<String> = ["b", "a", "é", "Z", "", "ab", "a"].iter().map(|s| s.to_string()).collect();
    let mut expected = all.clone();
    expected.sort();
    assert_eq!(sort(all), expected);
    assert!(is_in_order("a", "b") && is_in_order("a", "a") && !is_in_order("b", "a"));
}

#[test]
fn a_message_stays_for_three_seconds() {
    let mut o = OverlayState::default();
    assert!(o.show_filename && o.show_rating);
    assert!(!o.is_toast_alive(0));
    o.push_toast("saved".to_owned(), 1_000);
    assert!(o.is_toast_alive(1_000));
    assert!(o.is_toast_alive(3_000_000_999));
    assert!(!o.is_toast_alive(3_000_001_000));
    assert_eq!(o.tick_toast(1_500), Some(2_999_999_500));
    assert_eq!(o.tick_toast(500), Some(3_000_000_000));
    assert_eq!(o.tick_toast(4_000_000_000), None);
    assert!(o.toast.is_none());
}

#[test]
fn ratings_are_shown_as_stars() {
    assert_eq!(rating_badge(None), None);
    assert_eq!(rating_badge(Some(0)), Some((1, "★")));
    assert_eq!(rating_badge(Some(3)), Some((3, "★★★")));
    assert_eq!(rating_badge(Some(9)), Some((5, "★★★★★")));
}

fn path(path: &str, name: Option<&str>) -> PathArg {
    PathArg { path: path.to_owned(), name: name.map(|n| n.to_owned()) }
}

#[test]
fn paths_name_galleries_by_their_extension() {
    let args = vec![
        path("/x/a.galerie", Some("a.galerie")),
        path("/x/photos", Some("photos")),
        path("/x/a.GALERIE", Some("a.GALERIE")),
        path("/", None),
    ];
    assert_eq!(
        classify_args(&args),
        vec![
            InputArg::GalleryFile("/x/a.galerie".to_owned()),
            InputArg::Directory("/x/photos".to_owned()),
            InputArg::Directory("/x/a.GALERIE".to_owned()),
            InputArg::Directory("/".to_owned()),
        ]
    );
}

#[test]
fn exports_are_numbered() {
    assert_eq!(export_name(0, Some("sea".to_owned())), "0001_sea.png");
    assert_eq!(export_name(12344, None), "12345_image.png");
    assert_eq!(export_failure(0, 5), None);
    assert_eq!(export_failure(2, 5), Some("2/5 photos failed to export".to_owned()));
}

#[test]
fn a_collection_becomes_a_gallery() {
    let mut c = PhotoCollection::new();
    c.add_directory(&vec![HashedFile { path: "/a.jpg".to_owned(), hash: Some("h".to_owned()) }]);
    c.entries[0].data.rating = Some(2);
    let new = init_gallery(Some("trip".to_owned()), &c);
    assert_eq!(new.name, "trip");
    assert_eq!(new.photos[0].path, "/a.jpg");
    assert_eq!(new.photos[0].hash, "h");
    assert_eq!(new.photos[0].rating, None);
    let all = snapshot_gallery(None, &c);
    assert_eq!(all.name, "gallery");
    assert_eq!(all.photos[0].rating, Some(2));
}
