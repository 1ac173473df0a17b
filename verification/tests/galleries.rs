use galerie_montsouris::collection::{image_files, FoundFile, HashedFile, PhotoCollection};
use galerie_montsouris::filters::{Filter, RotateFill};
use galerie_montsouris::gallery::{
    extension, find_vector, hash_photo_file, is_hash_key, is_supported_image, legacy_gallery,
    new_entry, Annotation, BackgroundColor, EditGallery, FilterPreset, GalleryEntry, GalleryFile,
    PhotoData,
};
use galerie_montsouris::scalar::Scalar;

fn number(x: f32) -> Scalar {
    Scalar { bits: x.to_bits() }
}

const JPEG: &[u8] = &[
    0xFF, 0xD8, 0xFF, 0xE0, 0x00, 0x10, b'J', b'F', b'I', b'F', 0x00, 0x01, 0x01, 0x00,
];

fn turned(degrees: i32) -> Filter {
    Filter::Rotate { degrees, center: None, fill: RotateFill::Transparent }
}

fn found(dir: &str, names: &[&str]) -> Vec<FoundFile> {
    names
        .iter()
        .map(|n| FoundFile { path: format!("{dir}/{n}"), name: n.to_string(), is_file: true })
        .collect()
}

/// What a scan of a directory comes to.
fn scan(dir: &str, names: &[&str]) -> PhotoCollection {
    let files: Vec<HashedFile> = image_files(&found(dir, names))
        .into_iter()
        .map(|path| {
            let content: Vec<u8> = [JPEG, path.as_bytes()].concat();
            HashedFile { path, hash: Some(hash_photo_file(&content)) }
        })
        .collect();
    let mut col = PhotoCollection::new();
    col.add_directory(&files);
    col
}

fn gallery(name: &str, photos: Vec<GalleryEntry>) -> GalleryFile {
    GalleryFile {
        name: name.to_owned(),
        photos,
        background_color: None,
        pre_filters: vec![],
        post_filters: vec![],
        presets: vec![],
    }
}

/// Opens a gallery file all of whose photos are there.
fn open(path: &str, file: GalleryFile) -> PhotoCollection {
    let there: Vec<Option<String>> = file.photos.iter().map(|p| Some(p.path.clone())).collect();
    let computed: Vec<Option<String>> = file.photos.iter().map(|_| None).collect();
    let mut col = PhotoCollection::new();
    col.add_from_gallery_file(path.to_owned(), file, &there, &computed);
    col
}

/// What a gallery file holds after it was written and read again.
fn reread(col: &PhotoCollection, path: &str) -> GalleryFile {
    let f = col.gallery_file(path).unwrap();
    GalleryFile {
        name: f.name.clone(),
        photos: f
            .photos
            .iter()
            .map(|p| GalleryEntry {
                path: p.path.clone(),
                hash: p.hash.clone(),
                filters: p.filters.clone(),
                rating: p.rating,
                annotations: p.annotations.clone(),
            })
            .collect(),
        background_color: f.background_color,
        pre_filters: f.pre_filters.clone(),
        post_filters: f.post_filters.clone(),
        presets: f.presets.clone(),
    }
}

#[test]
fn scan_empty_dir() {
    let col = scan("/tmp/x", &[]);
    assert!(col.is_empty());
}

#[test]
fn scan_finds_images() {
    let col = scan("/tmp/x", &["b.jpeg", "a.jpg", "readme.txt"]);
    assert_eq!(col.len(), 2);
    assert_eq!(col.entries[0].index, 0);
    assert_eq!(col.entries[1].index, 1);
    assert_eq!(col.entries[0].path, "/tmp/x/a.jpg");
}

#[test]
fn dir_scan_no_persistence() {
    let mut col = scan("/tmp/x", &["a.jpg"]);
    assert_eq!(col.entries[0].data.rating, None);
    let data = PhotoData { rating: Some(4), ..PhotoData::default() };
    assert_eq!(col.update_data(0, data, &vec![]), None);
    assert_eq!(col.entries[0].data.rating, Some(4));
    let col2 = scan("/tmp/x", &["a.jpg"]);
    assert_eq!(col2.entries[0].data.rating, None);
}

#[test]
fn files_that_cannot_be_read_are_left_out() {
    let mut col = PhotoCollection::new();
    col.add_directory(&vec![
        HashedFile { path: "/a.jpg".to_owned(), hash: None },
        HashedFile { path: "/b.jpg".to_owned(), hash: Some("b1b2c3d4e5f60718".to_owned()) },
    ]);
    assert_eq!(col.len(), 1);
    assert_eq!(col.entries[0].path, "/b.jpg");
    assert_eq!(col.entries[0].index, 0);
}

#[test]
fn hash_photo_file_is_stable() {
    let h1 = hash_photo_file(&JPEG.to_vec());
    let h2 = hash_photo_file(&JPEG.to_vec());
    assert_eq!(h1, h2);
    assert_eq!(h1.len(), 16);
    assert!(h1.chars().all(|c| c.is_ascii_hexdigit()));
    assert_eq!(h1, format!("{:016x}", seahash::hash(JPEG)));
}

#[test]
fn hash_differs_for_different_content() {
    let ha = hash_photo_file(&JPEG.to_vec());
    let hb = hash_photo_file(&b"clearly different content".to_vec());
    assert_ne!(ha, hb);
}

#[test]
fn hash_reads_the_beginning_of_a_file() {
    let mut a = vec![1u8; 131_072];
    let h = hash_photo_file(&a);
    a.push(9);
    assert_eq!(hash_photo_file(&a), h);
    a[131_071] = 2;
    assert_ne!(hash_photo_file(&a), h);
}

#[test]
fn is_hash_key_classification() {
    assert!(is_hash_key("a1b2c3d4e5f60718"));
    assert!(!is_hash_key("photo.jpg"));
    assert!(!is_hash_key("a1b2c3d4e5f6071"));
    assert!(!is_hash_key("a1b2c3d4e5f607189"));
    assert!(!is_hash_key("g1b2c3d4e5f60718"));
}

#[test]
fn hashes_of_files_are_keys() {
    for content in [&b""[..], &b"a"[..], &b"photo"[..]] {
        assert!(is_hash_key(&hash_photo_file(&content.to_vec())));
    }
}

#[test]
fn images_are_told_by_their_extension() {
    assert_eq!(extension("a.b.JPG"), Some("JPG".to_owned()));
    assert_eq!(extension("noext"), None);
    assert_eq!(extension(".hidden"), None);
    assert!(is_supported_image("a.JPG", true));
    assert!(is_supported_image("a.webp", true));
    assert!(!is_supported_image("a.jpg", false));
    assert!(!is_supported_image("a.txt", true));
    assert!(!is_supported_image("jpg", true));
}

#[test]
fn gallery_file_legacy_migration() {
    let gf = legacy_gallery("legacy".to_owned(), vec!["/tmp/x/a.jpg".to_owned()]);
    assert_eq!(gf.name, "legacy");
    assert_eq!(gf.photos.len(), 1);
    assert_eq!(gf.photos[0].path, "/tmp/x/a.jpg");
    assert!(gf.photos[0].hash.is_empty());
}

#[test]
fn missing_hashes_are_computed() {
    let file = legacy_gallery("legacy".to_owned(), vec!["/a.jpg".to_owned(), "/b.jpg".to_owned()]);
    let there = vec![Some("/a.jpg".to_owned()), None];
    let computed = vec![Some("a1b2c3d4e5f60718".to_owned()), None];
    let mut col = PhotoCollection::new();
    assert!(col.add_from_gallery_file("/g.galerie".to_owned(), file, &there, &computed));
    assert_eq!(col.len(), 1);
    assert_eq!(col.entries[0].hash, "a1b2c3d4e5f60718");
    let kept = col.gallery_file("/g.galerie").unwrap();
    assert_eq!(kept.photos[0].hash, "a1b2c3d4e5f60718");
}

#[test]
fn galerie_rating_annotation_round_trip() {
    let hash = hash_photo_file(&JPEG.to_vec());
    let file = gallery("g", vec![new_entry("/tmp/x/a.jpg".to_owned(), hash)]);
    let mut col = open("/tmp/x/g.galerie", file);
    let data = PhotoData {
        rating: Some(4),
        annotations: vec![Annotation::Note { text: "lovely".to_owned() }],
        ..PhotoData::default()
    };
    let beside = col.photos_beside(0);
    assert_eq!(beside, vec!["/tmp/x/a.jpg".to_owned()]);
    assert_eq!(col.update_data(0, data, &beside), Some("/tmp/x/g.galerie".to_owned()));
    let col2 = open("/tmp/x/g.galerie", reread(&col, "/tmp/x/g.galerie"));
    assert_eq!(col2.entries[0].data.rating, Some(4));
    assert_eq!(col2.entries[0].data.annotations.len(), 1);
    let Annotation::Note { text } = &col2.entries[0].data.annotations[0] else {
        panic!("expected Note")
    };
    assert_eq!(text, "lovely");
}

#[test]
fn photos_of_equal_content_keep_their_own_data() {
    let hash = hash_photo_file(&JPEG.to_vec());
    let photos = vec![
        new_entry("/tmp/x/a.jpg".to_owned(), hash.clone()),
        new_entry("/tmp/x/b.jpg".to_owned(), hash),
    ];
    let mut col = open("/tmp/x/g.galerie", gallery("g", photos));
    let beside = col.photos_beside(1);
    col.update_data(1, PhotoData { rating: Some(4), ..PhotoData::default() }, &beside);
    let col2 = open("/tmp/x/g.galerie", reread(&col, "/tmp/x/g.galerie"));
    assert_eq!(col2.entries[0].data.rating, None);
    assert_eq!(col2.entries[1].data.rating, Some(4));
    let moved = vec!["/old/a.jpg".to_owned(), "/old/b.jpg".to_owned()];
    col.update_data(1, PhotoData { rating: Some(2), ..PhotoData::default() }, &moved);
    let col3 = open("/tmp/x/g.galerie", reread(&col, "/tmp/x/g.galerie"));
    assert_eq!(col3.entries[0].data.rating, Some(2));
}

#[test]
fn galerie_filters_stored_per_galerie() {
    let hash = hash_photo_file(&JPEG.to_vec());
    let mut entry = new_entry("/tmp/x/a.jpg".to_owned(), hash);
    entry.filters = vec![turned(90)];
    let mut col = open("/tmp/x/g.galerie", gallery("g", vec![entry]));
    assert_eq!(col.entries[0].data.filters, vec![turned(90)]);
    assert!(col.entries[0].galerie_source.is_some());
    let data = PhotoData { filters: vec![turned(180)], ..PhotoData::default() };
    col.update_data(0, data, &vec!["/tmp/x/a.jpg".to_owned()]);
    let col2 = open("/tmp/x/g.galerie", reread(&col, "/tmp/x/g.galerie"));
    assert_eq!(col2.entries[0].data.filters, vec![turned(180)]);
}

#[test]
fn gallery_settings_apply_where_one_is_open() {
    let mut col = open("/g.galerie", gallery("g", vec![]));
    assert!(col.has_galerie_source());
    assert_eq!(col.galerie_background(), None);
    assert!(col.set_galerie_background("/g.galerie", BackgroundColor::White));
    assert!(!col.set_galerie_background("/other", BackgroundColor::Gray));
    assert_eq!(col.galerie_background(), Some(BackgroundColor::White));
    assert!(col.set_galerie_filters("/g.galerie", vec![turned(90)], vec![Filter::FlipVertical]));
    assert_eq!(col.galerie_filters(), Some((vec![turned(90)], vec![Filter::FlipVertical])));
    let preset = FilterPreset { name: "p".to_owned(), filters: vec![turned(1)] };
    assert!(col.set_galerie_presets("/g.galerie", vec![preset.clone()]));
    assert_eq!(col.galerie_presets("/g.galerie"), vec![preset.clone()]);
    assert_eq!(col.all_presets(), vec![(preset, "/g.galerie".to_owned())]);
    assert_eq!(col.single_galerie_path(), Some("/g.galerie".to_owned()));
    col.add_from_gallery_file("/h.galerie".to_owned(), gallery("h", vec![]), &vec![], &vec![]);
    assert_eq!(col.galerie_background(), None);
    assert_eq!(col.galerie_filters(), None);
    assert_eq!(col.single_galerie_path(), None);
    assert_eq!(col.galerie_file_paths(), vec!["/g.galerie".to_owned(), "/h.galerie".to_owned()]);
}

#[test]
fn backgrounds_go_round() {
    let start = BackgroundColor::Black;
    assert_eq!(start.cycle(), BackgroundColor::Gray);
    assert_eq!(start.cycle().cycle(), BackgroundColor::White);
    assert_eq!(start.cycle().cycle().cycle(), start);
    assert_eq!(start.label(), "black");
    assert_eq!(BackgroundColor::Gray.label(), "gray");
    assert_eq!(BackgroundColor::White.label(), "white");
}

#[test]
fn vectors_are_read_back() {
    let vector = vec![number(1.0), number(-2.5), number(0.0)];
    let a = Annotation::embedding("clip", &vector);
    let Annotation::Embedding { namespace, data } = &a else { panic!("expected Embedding") };
    assert_eq!(namespace, "clip");
    assert_eq!(data, "AACAPwAAIMAAAAAA");
    assert_eq!(a.decode_embedding("clip"), Some(vector.clone()));
    assert_eq!(a.decode_embedding("dino"), None);
    let note = Annotation::Note { text: "x".to_owned() };
    assert_eq!(note.decode_embedding("clip"), None);
    let broken = Annotation::Embedding { namespace: "clip".to_owned(), data: "!".to_owned() };
    assert_eq!(broken.decode_embedding("clip"), None);
    assert_eq!(find_vector(&vec![note, broken, a], "clip"), Some(vector));
}

fn edited() -> EditGallery {
    let file = gallery("g", vec![new_entry("/a.jpg".to_owned(), "a1b2c3d4e5f60718".to_owned())]);
    EditGallery::load_or_create(
        "/g.galerie".to_owned(),
        Some("g".to_owned()),
        Some(file),
        &vec![Some("/a.jpg".to_owned())],
    )
}

#[test]
fn toggling_a_photo_twice_changes_nothing() {
    let mut g = edited();
    assert!(g.contains("/a.jpg"));
    assert!(!g.contains("/b.jpg"));
    assert!(g.toggle("/b.jpg", "b1b2c3d4e5f60718"));
    assert!(g.contains("/b.jpg"));
    assert_eq!(g.entries.len(), 2);
    assert_eq!(g.entries[1].hash, "b1b2c3d4e5f60718");
    assert!(!g.toggle("/b.jpg", "b1b2c3d4e5f60718"));
    assert!(!g.contains("/b.jpg"));
    assert_eq!(g.entries.len(), 1);
    assert!(g.contains("/a.jpg"));
}

#[test]
fn an_edited_gallery_keeps_the_filters_around() {
    let g = edited();
    let f = g.contents(Some((vec![turned(90)], vec![Filter::FlipVertical])));
    assert_eq!(f.name, "g");
    assert_eq!(f.photos.len(), 1);
    assert_eq!(f.pre_filters, vec![turned(90)]);
    assert_eq!(f.post_filters, vec![Filter::FlipVertical]);
    assert!(g.contents(None).pre_filters.is_empty());
    let new = EditGallery::load_or_create("/n.galerie".to_owned(), None, None, &vec![]);
    assert_eq!(new.name, "gallery");
    assert!(new.entries.is_empty());
}
