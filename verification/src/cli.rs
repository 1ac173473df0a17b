//! What the command line asks for.
use crate::collection::PhotoCollection;
use crate::filters::copy_stack;
use crate::gallery::{
    bare_entry, copy_annotations, extension, extension_of, new_entry, EntryView, GalleryEntry,
    GalleryEntryView, GalleryFile, GalleryView, InputArg,
};
use crate::text::{self, decimal_text, padded_text};
use vstd::prelude::*;

verus! {

broadcast use vstd::string::group_string_axioms;

/// A path on the command line.
#[derive(Debug)]
pub struct PathArg {
    pub path: String,
    /// Its last part, if it has one.
    pub name: Option<String>,
}

/// The path names a gallery file: its extension is `galerie`.
pub open spec fn is_gallery_path(a: PathArg) -> bool {
    a.name matches Some(n) && n@ != ".."@ && extension_of(n@) == Some("galerie"@)
}

/// `r` says what `a` names.
pub open spec fn classifies(a: PathArg, r: InputArg) -> bool {
    match r {
        InputArg::GalleryFile(p) => is_gallery_path(a) && p@ == a.path@,
        InputArg::Directory(p) => !is_gallery_path(a) && p@ == a.path@,
    }
}

/// What paths name: a gallery file by its extension, or else a directory.
pub fn classify_args(paths: &Vec<PathArg>) -> (r: Vec<InputArg>)
    ensures
        r@.len() == paths@.len(),
        forall|i: int| 0 <= i < r@.len() ==> classifies(paths@[i], #[trigger] r@[i]),
{
    let mut r: Vec<InputArg> = Vec::new();
    let mut i: usize = 0;
    while i < paths.len()
        invariant
            i <= paths@.len(),
            r@.len() == i,
            forall|k: int| 0 <= k < i ==> classifies(paths@[k], #[trigger] r@[k]),
        decreases paths@.len() - i,
    {
        let gallery = match &paths[i].name {
            Some(n) => match extension(n.as_str()) {
                Some(e) => text::same(e.as_str(), "galerie"),
                None => false,
            },
            None => false,
        };
        let p = paths[i].path.clone();
        if gallery {
            r.push(InputArg::GalleryFile(p));
        } else {
            r.push(InputArg::Directory(p));
        }
        i += 1;
    }
    r
}

/// The name of the file of an exported photo, by its number and its own name.
pub open spec fn exported_as(number: nat, stem: Seq<char>) -> Seq<char> {
    padded_text(number, 4) + "_"@ + stem + ".png"@
}

/// The name of the file to which the photo at `index` is exported: its number, counted from 1, in
/// four digits, and its name without extension.
pub fn export_name(index: usize, stem: Option<String>) -> (r: String)
    requires
        index < usize::MAX,
    ensures
        r@ == padded_text((index + 1) as nat, 4) + "_"@ + match stem {
            Some(s) => s@,
            None => "image"@,
        } + ".png"@,
        r@ == exported_as(
            (index + 1) as nat,
            match stem {
                Some(s) => s@,
                None => "image"@,
            },
        ),
{
    let mut r = text::padded(index as u64 + 1, 4);
    r.append("_");
    match stem {
        Some(s) => r.append(s.as_str()),
        None => r.append("image"),
    }
    r.append(".png");
    r
}

/// What became of an export: the message where photos failed.
pub fn export_failure(errors: usize, total: usize) -> (r: Option<String>)
    ensures
        r is Some <==> errors > 0,
        r matches Some(s) ==> s@ == decimal_text(errors as nat) + "/"@ + decimal_text(total as nat)
            + " photos failed to export"@,
{
    if errors > 0 {
        let mut s = text::decimal(errors as u64);
        s.append("/");
        s.append(text::decimal(total as u64).as_str());
        s.append(" photos failed to export");
        Some(s)
    } else {
        None
    }
}

/// A gallery of these photos with nothing else.
pub open spec fn plain_gallery(name: Option<String>, photos: Seq<GalleryEntryView>) -> GalleryView {
    GalleryView {
        name: match name {
            Some(s) => s@,
            None => "gallery"@,
        },
        photos,
        background_color: None,
        pre_filters: Seq::empty(),
        post_filters: Seq::empty(),
        presets: Seq::empty(),
    }
}

fn gallery_with(name: Option<String>, photos: Vec<GalleryEntry>) -> (g: GalleryFile)
    ensures
        g.deep_view() == plain_gallery(name, photos.deep_view()),
{
    let g = GalleryFile {
        name: match name {
            Some(s) => s,
            None => "gallery".to_owned(),
        },
        photos,
        background_color: None,
        pre_filters: Vec::new(),
        post_filters: Vec::new(),
        presets: Vec::new(),
    };
    assert(g.pre_filters.deep_view() =~= Seq::empty());
    assert(g.post_filters.deep_view() =~= Seq::empty());
    assert(g.presets.deep_view() =~= Seq::empty());
    g
}

/// A new gallery of all photos, with nothing known of any.
pub fn init_gallery(stem: Option<String>, collection: &PhotoCollection) -> (g: GalleryFile)
    ensures
        g.deep_view() == plain_gallery(
            stem,
            collection.photos().map_values(|e: EntryView| bare_entry(e.path, e.hash)),
        ),
{
    let mut photos: Vec<GalleryEntry> = Vec::new();
    let mut i: usize = 0;
    while i < collection.entries.len()
        invariant
            i <= collection.entries@.len(),
            photos@.len() == i,
            forall|k: int|
                0 <= k < i ==> (#[trigger] photos@[k]).deep_view() == bare_entry(
                    collection.photos()[k].path,
                    collection.photos()[k].hash,
                ),
        decreases collection.entries@.len() - i,
    {
        let e = &collection.entries[i];
        photos.push(new_entry(e.path.clone(), e.hash.clone()));
        i += 1;
    }
    assert(photos.deep_view() =~= collection.photos().map_values(
        |e: EntryView| bare_entry(e.path, e.hash),
    ));
    gallery_with(stem, photos)
}

/// A new gallery of all photos, with all that is known of them.
pub fn snapshot_gallery(stem: Option<String>, collection: &PhotoCollection) -> (g: GalleryFile)
    ensures
        g.deep_view() == plain_gallery(
            stem,
            collection.photos().map_values(
                |e: EntryView| GalleryEntryView { path: e.path, hash: e.hash, data: e.data },
            ),
        ),
{
    let mut photos: Vec<GalleryEntry> = Vec::new();
    let mut i: usize = 0;
    while i < collection.entries.len()
        invariant
            i <= collection.entries@.len(),
            photos@.len() == i,
            forall|k: int|
                0 <= k < i ==> (#[trigger] photos@[k]).deep_view() == (GalleryEntryView {
                    path: collection.photos()[k].path,
                    hash: collection.photos()[k].hash,
                    data: collection.photos()[k].data,
                }),
        decreases collection.entries@.len() - i,
    {
        let e = &collection.entries[i];
        assert(collection.photos()[i as int] == e.deep_view());
        photos.push(
            GalleryEntry {
                path: e.path.clone(),
                hash: e.hash.clone(),
                filters: copy_stack(&e.data.filters),
                rating: e.data.rating,
                annotations: copy_annotations(&e.data.annotations),
            },
        );
        i += 1;
    }
    assert(photos.deep_view() =~= collection.photos().map_values(
        |e: EntryView| GalleryEntryView { path: e.path, hash: e.hash, data: e.data },
    ));
    gallery_with(stem, photos)
}

} // verus!
