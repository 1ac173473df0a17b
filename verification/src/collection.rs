//! The photos that are open, and the gallery files they come from.
use crate::filters::{copy_stack, Filter, FilterView};
use crate::gallery::{
    copy_annotations, copy_photos, copy_presets, is_hash_key, is_key, is_photo_name,
    is_supported_image, no_data, text_of, texts_of, BackgroundColor, DataView, EntryView,
    FilterPreset, GalleryEntry, GalleryEntryView, GalleryFile, GalleryView, PhotoData, PhotoEntry,
    PresetView,
};
use crate::text;
use vstd::prelude::*;

verus! {

broadcast use vstd::string::group_string_axioms;

/// An entry of a directory.
#[derive(Debug)]
pub struct FoundFile {
    pub path: String,
    /// The last part of the path.
    pub name: String,
    pub is_file: bool,
}

/// The paths of the photos in a directory.
pub open spec fn photo_paths(found: Seq<FoundFile>) -> Seq<Seq<char>>
    decreases found.len(),
{
    if found.len() == 0 {
        Seq::empty()
    } else {
        let before = photo_paths(found.drop_last());
        if found.last().is_file && is_photo_name(found.last().name@) {
            before.push(found.last().path@)
        } else {
            before
        }
    }
}

/// The paths of the photos in a directory, in order.
pub fn image_files(found: &Vec<FoundFile>) -> (r: Vec<String>)
    ensures
        text::sorted(r.deep_view()),
        r.deep_view().to_multiset() == photo_paths(found@).to_multiset(),
{
    let mut paths: Vec<String> = Vec::new();
    let mut i: usize = 0;
    assert(paths.deep_view() =~= photo_paths(found@.take(0)));
    while i < found.len()
        invariant
            i <= found@.len(),
            paths.deep_view() == photo_paths(found@.take(i as int)),
        decreases found@.len() - i,
    {
        assert(found@.take(i + 1).drop_last() == found@.take(i as int));
        if is_supported_image(found[i].name.as_str(), found[i].is_file) {
            let ghost before = paths.deep_view();
            paths.push(found[i].path.clone());
            assert(paths.deep_view() =~= before.push(found@[i as int].path@));
        }
        i += 1;
    }
    assert(found@.take(i as int) == found@);
    text::sort(paths)
}

/// A photo of a directory with its hash, where it could be read.
#[derive(Debug)]
pub struct HashedFile {
    pub path: String,
    pub hash: Option<String>,
}

/// The entries of photos that were hashed, the first under the number `start`.
pub open spec fn directory_entries(files: Seq<HashedFile>, start: nat) -> Seq<EntryView>
    decreases files.len(),
{
    if files.len() == 0 {
        Seq::empty()
    } else {
        let before = directory_entries(files.drop_last(), start);
        match files.last().hash {
            Some(h) => before.push(
                EntryView {
                    index: start + before.len(),
                    path: files.last().path@,
                    hash: h@,
                    data: no_data(),
                    galerie_source: None,
                },
            ),
            None => before,
        }
    }
}

/// The hash to go by: the stored one, where it has the form of a hash, or else the computed one.
pub open spec fn hash_to_use(stored: Seq<char>, computed: Option<Seq<char>>) -> Option<Seq<char>> {
    if is_key(stored) {
        Some(stored)
    } else {
        computed
    }
}

/// The entries of the photos of a gallery file, the first under the number `start`. Photos that were
/// not found, or that have no hash, are left out.
pub open spec fn gallery_entries(
    photos: Seq<GalleryEntryView>,
    found: Seq<Option<Seq<char>>>,
    computed: Seq<Option<Seq<char>>>,
    source: Seq<char>,
    start: nat,
) -> Seq<EntryView>
    decreases photos.len(),
{
    if photos.len() == 0 {
        Seq::empty()
    } else {
        let i = photos.len() - 1;
        let before = gallery_entries(photos.drop_last(), found, computed, source, start);
        match (found[i], hash_to_use(photos[i].hash, computed[i])) {
            (Some(path), Some(hash)) => before.push(
                EntryView {
                    index: start + before.len(),
                    path,
                    hash,
                    data: photos[i].data,
                    galerie_source: Some(source),
                },
            ),
            _ => before,
        }
    }
}

/// The photo gets a computed hash in place of what it had.
pub open spec fn is_rehashed(
    photo: GalleryEntryView,
    found: Option<Seq<char>>,
    computed: Option<Seq<char>>,
) -> bool {
    found is Some && !is_key(photo.hash) && computed is Some
}

/// The photos of a gallery file with the hashes that they lacked.
pub open spec fn rehashed(
    photos: Seq<GalleryEntryView>,
    found: Seq<Option<Seq<char>>>,
    computed: Seq<Option<Seq<char>>>,
) -> Seq<GalleryEntryView> {
    Seq::new(
        photos.len(),
        |i: int|
            if is_rehashed(photos[i], found[i], computed[i]) {
                GalleryEntryView { hash: computed[i]->0, ..photos[i] }
            } else {
                photos[i]
            },
    )
}

/// The first place of `t` among `texts`; their number where there is none.
pub open spec fn first_of(texts: Seq<Seq<char>>, t: Seq<char>) -> int
    decreases texts.len(),
{
    if texts.len() == 0 || texts[0] == t {
        0
    } else {
        1 + first_of(texts.drop_first(), t)
    }
}

/// The hashes of the photos of a gallery.
pub open spec fn hashes_of(photos: Seq<GalleryEntryView>) -> Seq<Seq<char>> {
    Seq::new(photos.len(), |i: int| photos[i].hash)
}

/// The first photo of a gallery at `path`, or, where none is there, the first with that hash; the
/// number of photos where there is none. `canon` holds the photos' absolute paths.
pub open spec fn first_match(
    photos: Seq<GalleryEntryView>,
    canon: Seq<Seq<char>>,
    path: Seq<char>,
    hash: Seq<char>,
) -> int {
    if first_of(canon, path) < photos.len() {
        first_of(canon, path)
    } else {
        first_of(hashes_of(photos), hash)
    }
}

/// The photos of a gallery after `data` was noted for the photo at `path`, or, where none is there,
/// with that hash.
pub open spec fn recorded(
    photos: Seq<GalleryEntryView>,
    canon: Seq<Seq<char>>,
    path: Seq<char>,
    hash: Seq<char>,
    data: DataView,
) -> Seq<GalleryEntryView> {
    let i = first_match(photos, canon, path, hash);
    if i < photos.len() {
        photos.update(i, GalleryEntryView { data, ..photos[i] })
    } else {
        photos
    }
}

proof fn lemma_first_of(texts: Seq<Seq<char>>, t: Seq<char>, i: int)
    requires
        0 <= i <= texts.len(),
        forall|k: int| 0 <= k < i ==> #[trigger] texts[k] != t,
        i < texts.len() ==> texts[i] == t,
    ensures
        first_of(texts, t) == i,
    decreases texts.len(),
{
    if i > 0 {
        let rest = texts.drop_first();
        assert(texts[0] != t);
        assert forall|k: int| 0 <= k < i - 1 implies #[trigger] rest[k] != t by {
            assert(rest[k] == texts[k + 1]);
        }
        lemma_first_of(rest, t, i - 1);
    }
}

/// A gallery file that is open, under its absolute path.
#[derive(Debug)]
pub struct LoadedGallery {
    pub path: String,
    pub file: GalleryFile,
}

impl DeepView for LoadedGallery {
    type V = (Seq<char>, GalleryView);

    open spec fn deep_view(&self) -> (Seq<char>, GalleryView) {
        (self.path@, self.file.deep_view())
    }
}

/// A gallery file is open under `path`.
pub open spec fn is_loaded(galleries: Seq<(Seq<char>, GalleryView)>, path: Seq<char>) -> bool {
    exists|i: int| 0 <= i < galleries.len() && (#[trigger] galleries[i]).0 == path
}

/// The gallery file that is open under `path`.
pub open spec fn gallery_at(galleries: Seq<(Seq<char>, GalleryView)>, path: Seq<char>) -> GalleryView {
    galleries[choose|i: int| 0 <= i < galleries.len() && (#[trigger] galleries[i]).0 == path].1
}

/// The open gallery files with `g` under `path`.
pub open spec fn with_gallery(
    galleries: Seq<(Seq<char>, GalleryView)>,
    path: Seq<char>,
    g: GalleryView,
) -> Seq<(Seq<char>, GalleryView)> {
    Seq::new(
        galleries.len(),
        |i: int|
            if galleries[i].0 == path {
                (path, g)
            } else {
                galleries[i]
            },
    )
}

/// No path stands twice in the list.
pub open spec fn paths_differ(galleries: Seq<(Seq<char>, GalleryView)>) -> bool {
    forall|i: int, j: int|
        0 <= i < j < galleries.len() ==> (#[trigger] galleries[i]).0 != (#[trigger] galleries[j]).0
}

/// The photos that are open.
pub struct PhotoCollection {
    pub entries: Vec<PhotoEntry>,
    /// The gallery files that photos come from, each once.
    pub galerie_files: Vec<LoadedGallery>,
}

impl PhotoCollection {
    /// The photos.
    pub open spec fn photos(self) -> Seq<EntryView> {
        self.entries.deep_view()
    }

    /// The gallery files.
    pub open spec fn galleries(self) -> Seq<(Seq<char>, GalleryView)> {
        self.galerie_files.deep_view()
    }

    /// Each photo knows its place, and no gallery file is open twice.
    pub open spec fn wf(self) -> bool {
        &&& forall|i: int| 0 <= i < self.photos().len() ==> (#[trigger] self.photos()[i]).index == i
        &&& paths_differ(self.galleries())
    }

    /// A collection without photos.
    pub fn new() -> (c: Self)
        ensures
            c.wf(),
            c.photos().len() == 0,
            c.galleries().len() == 0,
    {
        PhotoCollection { entries: Vec::new(), galerie_files: Vec::new() }
    }

    pub fn len(&self) -> (n: usize)
        ensures
            n == self.photos().len(),
    {
        self.entries.len()
    }

    pub fn is_empty(&self) -> (b: bool)
        ensures
            b == (self.photos().len() == 0),
    {
        self.entries.len() == 0
    }

    /// Adds the photos of a directory. Those without a hash are left out.
    pub fn add_directory(&mut self, files: &Vec<HashedFile>)
        requires
            old(self).wf(),
        ensures
            final(self).wf(),
            final(self).photos() == old(self).photos() + directory_entries(
                files@,
                old(self).photos().len(),
            ),
            final(self).galleries() == old(self).galleries(),
    {
        let ghost before = self.photos();
        let mut i: usize = 0;
        assert(before + directory_entries(files@.take(0), before.len()) =~= before);
        while i < files.len()
            invariant
                i <= files@.len(),
                self.wf(),
                self.photos() == before + directory_entries(files@.take(i as int), before.len()),
                self.galerie_files == old(self).galerie_files,
            decreases files@.len() - i,
        {
            let ghost have = self.photos();
            let ghost upto = files@.take(i + 1);
            assert(upto.drop_last() == files@.take(i as int));
            assert(upto.last() == files@[i as int]);
            match &files[i].hash {
                Some(h) => {
                    let index = self.entries.len();
                    let e = PhotoEntry {
                        index,
                        path: files[i].path.clone(),
                        hash: h.clone(),
                        data: PhotoData::default(),
                        galerie_source: None,
                    };
                    self.entries.push(e);
                    assert(self.photos() =~= have.push(e.deep_view()));
                    assert(self.photos() =~= before + directory_entries(upto, before.len()));
                },
                None => {},
            }
            i += 1;
        }
        assert(files@.take(i as int) == files@);
    }

    /// Adds the photos of a gallery file, and keeps the file under its absolute path. `found` holds
    /// the absolute path of each photo that is there, `computed` the hash of each photo without a
    /// stored one that could be read. Says whether any photo got a hash that it lacked, so that the
    /// file has to be written.
    pub fn add_from_gallery_file(
        &mut self,
        path: String,
        gallery: GalleryFile,
        found: &Vec<Option<String>>,
        computed: &Vec<Option<String>>,
    ) -> (needs_save: bool)
        requires
            old(self).wf(),
            found@.len() == gallery.photos@.len(),
            computed@.len() == gallery.photos@.len(),
        ensures
            final(self).wf(),
            final(self).photos() == old(self).photos() + gallery_entries(
                gallery.photos.deep_view(),
                texts_of(found@),
                texts_of(computed@),
                path@,
                old(self).photos().len(),
            ),
            needs_save == exists|i: int|
                0 <= i < gallery.photos@.len() && #[trigger] is_rehashed(
                    gallery.photos.deep_view()[i],
                    texts_of(found@)[i],
                    texts_of(computed@)[i],
                ),
            ({
                let kept = GalleryView {
                    photos: rehashed(
                        gallery.photos.deep_view(),
                        texts_of(found@),
                        texts_of(computed@),
                    ),
                    ..gallery.deep_view()
                };
                if is_loaded(old(self).galleries(), path@) {
                    final(self).galleries() == with_gallery(old(self).galleries(), path@, kept)
                } else {
                    final(self).galleries() == old(self).galleries().push((path@, kept))
                }
            }),
    {
        let ghost before = self.photos();
        let ghost photos = gallery.photos.deep_view();
        let ghost f = texts_of(found@);
        let ghost c = texts_of(computed@);
        let GalleryFile {
            name,
            photos: listed,
            background_color,
            pre_filters,
            post_filters,
            presets,
        } = gallery;
        let mut kept: Vec<GalleryEntry> = Vec::new();
        let mut needs_save = false;
        let mut i: usize = 0;
        assert(before + gallery_entries(photos.take(0), f, c, path@, before.len()) =~= before);
        while i < listed.len()
            invariant
                i <= listed@.len(),
                listed.deep_view() == photos,
                found@.len() == listed@.len(),
                computed@.len() == listed@.len(),
                f == texts_of(found@),
                c == texts_of(computed@),
                self.wf(),
                self.photos() == before + gallery_entries(
                    photos.take(i as int),
                    f,
                    c,
                    path@,
                    before.len(),
                ),
                self.galerie_files == old(self).galerie_files,
                needs_save == exists|k: int|
                    0 <= k < i && #[trigger] is_rehashed(photos[k], f[k], c[k]),
                kept@.len() == i,
                forall|k: int|
                    0 <= k < i ==> (#[trigger] kept@[k]).deep_view() == rehashed(photos, f, c)[k],
            decreases listed@.len() - i,
        {
            let ghost have = self.photos();
            let ghost upto = photos.take(i + 1);
            assert(upto.drop_last() == photos.take(i as int));
            assert(upto.last() == photos[i as int]);
            assert(photos[i as int] == listed@[i as int].deep_view());
            let mut ge = listed[i].clone();
            let stored = is_hash_key(ge.hash.as_str());
            match (&found[i], &computed[i]) {
                (Some(p), Some(h)) => {
                    if !stored {
                        ge.hash = h.clone();
                        needs_save = true;
                        assert(is_rehashed(photos[i as int], f[i as int], c[i as int]));
                    }
                    self.add_one(p, &ge, &path);
                },
                (Some(p), None) => {
                    if stored {
                        self.add_one(p, &ge, &path);
                    }
                },
                _ => {},
            }
            proof {
                assert(self.photos() =~= before + gallery_entries(
                    upto,
                    f,
                    c,
                    path@,
                    before.len(),
                ));
            }
            kept.push(ge);
            i += 1;
        }
        assert(photos.take(i as int) == photos);
        assert(kept.deep_view() =~= rehashed(photos, f, c));
        let file = GalleryFile {
            name,
            photos: kept,
            background_color,
            pre_filters,
            post_filters,
            presets,
        };
        self.keep_gallery(path, file);
        needs_save
    }

    /// Appends a photo of a gallery file.
    fn add_one(&mut self, path: &String, ge: &GalleryEntry, source: &String)
        requires
            old(self).wf(),
        ensures
            final(self).wf(),
            final(self).galerie_files == old(self).galerie_files,
            final(self).photos() == old(self).photos().push(
                EntryView {
                    index: old(self).photos().len(),
                    path: path@,
                    hash: ge.hash@,
                    data: ge.deep_view().data,
                    galerie_source: Some(source@),
                },
            ),
    {
        let ghost have = self.photos();
        let index = self.entries.len();
        let data = PhotoData {
            rating: ge.rating,
            filters: copy_stack(&ge.filters),
            annotations: copy_annotations(&ge.annotations),
        };
        let e = PhotoEntry {
            index,
            path: path.clone(),
            hash: ge.hash.clone(),
            data,
            galerie_source: Some(source.clone()),
        };
        self.entries.push(e);
        assert(self.photos() =~= have.push(e.deep_view()));
    }

    /// The place of the gallery file that is open under `path`.
    fn gallery_index(&self, path: &str) -> (r: Option<usize>)
        ensures
            r is Some <==> is_loaded(self.galleries(), path@),
            r matches Some(i) ==> i < self.galleries().len() && self.galleries()[i as int].0
                == path@,
    {
        let mut i: usize = 0;
        while i < self.galerie_files.len()
            invariant
                i <= self.galerie_files@.len(),
                forall|k: int| 0 <= k < i ==> (#[trigger] self.galleries()[k]).0 != path@,
            decreases self.galerie_files@.len() - i,
        {
            assert(self.galleries()[i as int].0 == self.galerie_files@[i as int].path@);
            if text::same(self.galerie_files[i].path.as_str(), path) {
                return Some(i);
            }
            i += 1;
        }
        None
    }

    /// Keeps a gallery file under its path, in place of one that was open there.
    fn keep_gallery(&mut self, path: String, file: GalleryFile)
        requires
            old(self).wf(),
        ensures
            final(self).wf(),
            final(self).entries == old(self).entries,
            is_loaded(old(self).galleries(), path@) ==> final(self).galleries() == with_gallery(
                old(self).galleries(),
                path@,
                file.deep_view(),
            ),
            !is_loaded(old(self).galleries(), path@) ==> final(self).galleries() == old(
                self,
            ).galleries().push((path@, file.deep_view())),
    {
        let ghost before = self.galleries();
        match self.gallery_index(path.as_str()) {
            Some(i) => {
                let g = LoadedGallery { path, file };
                let ghost new = g.deep_view();
                self.galerie_files.set(i, g);
                assert(self.galleries() =~= before.update(i as int, new));
                assert(self.galleries() =~= with_gallery(before, new.0, new.1));
            },
            None => {
                let g = LoadedGallery { path, file };
                let ghost new = g.deep_view();
                self.galerie_files.push(g);
                assert(self.galleries() =~= before.push(new));
            },
        }
    }

    /// Notes `data` for a photo, and in the gallery file that the photo comes from, if it is open.
    /// `canon` holds the absolute paths of that file's photos. Returns the path of the gallery file,
    /// which is then to be written.
    pub fn update_data(&mut self, index: usize, data: PhotoData, canon: &Vec<String>) -> (save: Option<
        String,
    >)
        requires
            old(self).wf(),
            index < old(self).photos().len(),
            fits_gallery(*old(self), index as int, canon@.len()),
        ensures
            final(self).wf(),
            is_updated(
                *old(self),
                *final(self),
                index as int,
                data.deep_view(),
                canon.deep_view(),
                text_of(save),
            ),
    {
        let ghost before = self.photos();
        let ghost gs = self.galleries();
        let path = self.entries[index].path.clone();
        let hash = self.entries[index].hash.clone();
        let source = match &self.entries[index].galerie_source {
            Some(p) => Some(p.clone()),
            None => None,
        };
        let copy = data.clone();
        self.entries[index].data = data;
        assert(self.photos() =~= before.update(
            index as int,
            EntryView { data: data.deep_view(), ..before[index as int] },
        ));
        assert(self.wf());
        match source {
            None => None,
            Some(p) => match self.gallery_index(p.as_str()) {
                None => None,
                Some(i) => {
                    proof {
                        lemma_gallery_at(gs, p@, i as int);
                    }
                    let mut photos = copy_photos(&self.galerie_files[i].file.photos);
                    record(&mut photos, canon, path.as_str(), hash.as_str(), copy);
                    self.galerie_files[i].file.photos = photos;
                    assert(self.galleries() =~= with_gallery(
                        gs,
                        p@,
                        GalleryView {
                            photos: recorded(
                                gallery_at(gs, p@).photos,
                                canon.deep_view(),
                                path@,
                                hash@,
                                data.deep_view(),
                            ),
                            ..gallery_at(gs, p@)
                        },
                    ));
                    Some(p)
                },
            },
        }
    }

    /// The paths of the photos in the gallery file that a photo comes from.
    pub fn photos_beside(&self, index: usize) -> (r: Vec<String>)
        requires
            self.wf(),
            index < self.photos().len(),
        ensures
            match self.photos()[index as int].galerie_source {
                Some(p) => if is_loaded(self.galleries(), p) {
                    r.deep_view() == gallery_at(self.galleries(), p).photos.map_values(
                        |e: GalleryEntryView| e.path,
                    )
                } else {
                    r@.len() == 0
                },
                None => r@.len() == 0,
            },
    {
        let mut r: Vec<String> = Vec::new();
        match &self.entries[index].galerie_source {
            None => r,
            Some(p) => match self.gallery_index(p.as_str()) {
                None => r,
                Some(g) => {
                    proof {
                        lemma_gallery_at(self.galleries(), p@, g as int);
                    }
                    let photos = &self.galerie_files[g].file.photos;
                    let mut i: usize = 0;
                    while i < photos.len()
                        invariant
                            i <= photos@.len(),
                            r@.len() == i,
                            forall|k: int|
                                0 <= k < i ==> (#[trigger] r@[k])@ == photos@[k].path@,
                        decreases photos@.len() - i,
                    {
                        r.push(photos[i].path.clone());
                        i += 1;
                    }
                    assert(r.deep_view() =~= photos.deep_view().map_values(
                        |e: GalleryEntryView| e.path,
                    ));
                    r
                },
            },
        }
    }

    /// Whether `n` is the number of photos in the gallery file that a photo comes from, if it is open.
    pub fn fits(&self, index: usize, n: usize) -> (b: bool)
        requires
            self.wf(),
            index < self.photos().len(),
        ensures
            b == fits_gallery(*self, index as int, n as nat),
    {
        assert(self.photos()[index as int] == self.entries@[index as int].deep_view());
        match &self.entries[index].galerie_source {
            Some(p) => match self.gallery_file(p.as_str()) {
                Some(f) => f.photos.len() == n,
                None => true,
            },
            None => true,
        }
    }

    /// Whether any gallery file is open, so that ratings and annotations can be kept.
    pub fn has_galerie_source(&self) -> (b: bool)
        ensures
            b == (self.galleries().len() > 0),
    {
        self.galerie_files.len() > 0
    }

    /// The background of the gallery file, if exactly one is open.
    pub fn galerie_background(&self) -> (c: Option<BackgroundColor>)
        ensures
            c == if self.galleries().len() == 1 {
                self.galleries()[0].1.background_color
            } else {
                None
            },
    {
        if self.galerie_files.len() == 1 {
            self.galerie_files[0].file.background_color
        } else {
            None
        }
    }

    /// The paths of the open gallery files.
    pub fn galerie_file_paths(&self) -> (r: Vec<String>)
        ensures
            r.deep_view() == self.galleries().map_values(|g: (Seq<char>, GalleryView)| g.0),
    {
        let mut r: Vec<String> = Vec::new();
        let mut i: usize = 0;
        while i < self.galerie_files.len()
            invariant
                i <= self.galerie_files@.len(),
                r@.len() == i,
                forall|k: int| 0 <= k < i ==> (#[trigger] r@[k])@ == self.galleries()[k].0,
            decreases self.galerie_files@.len() - i,
        {
            r.push(self.galerie_files[i].path.clone());
            i += 1;
        }
        assert(r.deep_view() =~= self.galleries().map_values(|g: (Seq<char>, GalleryView)| g.0));
        r
    }

    /// The filters that the gallery file puts before and after those of its photos, if exactly one
    /// is open.
    pub fn galerie_filters(&self) -> (r: Option<(Vec<Filter>, Vec<Filter>)>)
        ensures
            crate::filters::gallery_stacks(r) == self.around(),
    {
        if self.galerie_files.len() == 1 {
            let f = &self.galerie_files[0].file;
            Some((copy_stack(&f.pre_filters), copy_stack(&f.post_filters)))
        } else {
            None
        }
    }

    /// The filters before and after those of the photos, if exactly one gallery file is open.
    pub open spec fn around(self) -> Option<(Seq<FilterView>, Seq<FilterView>)> {
        if self.galleries().len() == 1 {
            Some((self.galleries()[0].1.pre_filters, self.galleries()[0].1.post_filters))
        } else {
            None
        }
    }

    /// The path of the gallery file, if exactly one is open.
    pub fn single_galerie_path(&self) -> (r: Option<String>)
        ensures
            text_of(r) == if self.galleries().len() == 1 {
                Some(self.galleries()[0].0)
            } else {
                None
            },
    {
        if self.galerie_files.len() == 1 {
            Some(self.galerie_files[0].path.clone())
        } else {
            None
        }
    }

    /// The gallery file that is open under `path`.
    pub fn gallery_file(&self, path: &str) -> (r: Option<&GalleryFile>)
        requires
            self.wf(),
        ensures
            r is Some <==> is_loaded(self.galleries(), path@),
            r matches Some(f) ==> f.deep_view() == gallery_at(self.galleries(), path@),
    {
        match self.gallery_index(path) {
            Some(i) => {
                proof {
                    lemma_gallery_at(self.galleries(), path@, i as int);
                }
                Some(&self.galerie_files[i].file)
            },
            None => None,
        }
    }

    /// Sets the background of a gallery file. Says whether the file is open, and so to be written.
    pub fn set_galerie_background(&mut self, path: &str, color: BackgroundColor) -> (save: bool)
        requires
            old(self).wf(),
        ensures
            final(self).wf(),
            final(self).entries == old(self).entries,
            save == is_loaded(old(self).galleries(), path@),
            final(self).galleries() == with_gallery(
                old(self).galleries(),
                path@,
                GalleryView {
                    background_color: Some(color),
                    ..gallery_at(old(self).galleries(), path@)
                },
            ),
    {
        let ghost gs = self.galleries();
        let ghost new = with_gallery(
            gs,
            path@,
            GalleryView { background_color: Some(color), ..gallery_at(gs, path@) },
        );
        match self.gallery_index(path) {
            Some(i) => {
                proof {
                    lemma_gallery_at(gs, path@, i as int);
                }
                self.galerie_files[i].file.background_color = Some(color);
                assert(self.galleries() =~= new);
                true
            },
            None => {
                assert(self.galleries() =~= new);
                false
            },
        }
    }

    /// Sets the filters that a gallery file puts around those of its photos. Says whether the file
    /// is open, and so to be written.
    pub fn set_galerie_filters(
        &mut self,
        path: &str,
        pre_filters: Vec<Filter>,
        post_filters: Vec<Filter>,
    ) -> (save: bool)
        requires
            old(self).wf(),
        ensures
            final(self).wf(),
            final(self).entries == old(self).entries,
            save == is_loaded(old(self).galleries(), path@),
            final(self).galleries() == with_gallery(
                old(self).galleries(),
                path@,
                GalleryView {
                    pre_filters: pre_filters.deep_view(),
                    post_filters: post_filters.deep_view(),
                    ..gallery_at(old(self).galleries(), path@)
                },
            ),
    {
        let ghost gs = self.galleries();
        let ghost new = with_gallery(
            gs,
            path@,
            GalleryView {
                pre_filters: pre_filters.deep_view(),
                post_filters: post_filters.deep_view(),
                ..gallery_at(gs, path@)
            },
        );
        match self.gallery_index(path) {
            Some(i) => {
                proof {
                    lemma_gallery_at(gs, path@, i as int);
                }
                self.galerie_files[i].file.pre_filters = pre_filters;
                self.galerie_files[i].file.post_filters = post_filters;
                assert(self.galleries() =~= new);
                true
            },
            None => {
                assert(self.galleries() =~= new);
                false
            },
        }
    }

    /// The presets of a gallery file; none where it is not open.
    pub fn galerie_presets(&self, path: &str) -> (r: Vec<FilterPreset>)
        requires
            self.wf(),
        ensures
            r.deep_view() == presets_at(self.galleries(), path@),
    {
        match self.gallery_index(path) {
            Some(i) => {
                proof {
                    lemma_gallery_at(self.galleries(), path@, i as int);
                }
                copy_presets(&self.galerie_files[i].file.presets)
            },
            None => {
                let none: Vec<FilterPreset> = Vec::new();
                assert(none.deep_view() =~= Seq::empty());
                none
            },
        }
    }

    /// All presets of the open gallery files, each with the path of its file.
    pub fn all_presets(&self) -> (r: Vec<(FilterPreset, String)>)
        ensures
            preset_list(r@) == presets_of(self.galleries()),
    {
        let mut r: Vec<(FilterPreset, String)> = Vec::new();
        let mut i: usize = 0;
        assert(preset_list(r@) =~= presets_of(self.galleries().take(0)));
        while i < self.galerie_files.len()
            invariant
                i <= self.galerie_files@.len(),
                preset_list(r@) == presets_of(self.galleries().take(i as int)),
            decreases self.galerie_files@.len() - i,
        {
            let ghost before = preset_list(r@);
            let g = &self.galerie_files[i];
            let ghost upto = self.galleries().take(i + 1);
            assert(upto.drop_last() == self.galleries().take(i as int));
            assert(upto.last() == g.deep_view());
            let ghost own = g.file.presets.deep_view();
            assert(tagged(own.take(0), g.path@) =~= Seq::empty());
            assert(before + Seq::<(PresetView, Seq<char>)>::empty() =~= before);
            let mut j: usize = 0;
            while j < g.file.presets.len()
                invariant
                    j <= g.file.presets@.len(),
                    own == g.file.presets.deep_view(),
                    preset_list(r@) == before + tagged(own.take(j as int), g.path@),
                decreases g.file.presets@.len() - j,
            {
                let ghost last = preset_list(r@);
                let p = g.file.presets[j].clone();
                r.push((p, g.path.clone()));
                assert(p.deep_view() == own[j as int]);
                assert(preset_list(r@) =~= last.push((own[j as int], g.path@)));
                assert(tagged(own.take(j + 1), g.path@) =~= tagged(own.take(j as int), g.path@).push(
                    (own[j as int], g.path@),
                ));
                assert(preset_list(r@) =~= before + tagged(own.take(j + 1), g.path@));
                j += 1;
            }
            assert(own.take(j as int) == own);
            i += 1;
        }
        assert(self.galleries().take(i as int) == self.galleries());
        r
    }

    /// Sets the presets of a gallery file. Says whether the file is open, and so to be written.
    pub fn set_galerie_presets(&mut self, path: &str, presets: Vec<FilterPreset>) -> (save: bool)
        requires
            old(self).wf(),
        ensures
            final(self).wf(),
            final(self).entries == old(self).entries,
            save == is_loaded(old(self).galleries(), path@),
            final(self).galleries() == with_gallery(
                old(self).galleries(),
                path@,
                GalleryView {
                    presets: presets.deep_view(),
                    ..gallery_at(old(self).galleries(), path@)
                },
            ),
    {
        let ghost gs = self.galleries();
        let ghost new = with_gallery(
            gs,
            path@,
            GalleryView { presets: presets.deep_view(), ..gallery_at(gs, path@) },
        );
        match self.gallery_index(path) {
            Some(i) => {
                proof {
                    lemma_gallery_at(gs, path@, i as int);
                }
                self.galerie_files[i].file.presets = presets;
                assert(self.galleries() =~= new);
                true
            },
            None => {
                assert(self.galleries() =~= new);
                false
            },
        }
    }
}

/// The gallery file that the photo comes from, if it is open, has `n` photos.
pub open spec fn fits_gallery(c: PhotoCollection, index: int, n: nat) -> bool {
    c.photos()[index].galerie_source matches Some(p) ==> is_loaded(c.galleries(), p) ==> n
        == gallery_at(c.galleries(), p).photos.len()
}

/// `after` is `before` with `data` noted for a photo, and in the gallery file that the photo comes
/// from, if it is open. That file is then to be written: `save` is its path.
pub open spec fn is_updated(
    before: PhotoCollection,
    after: PhotoCollection,
    index: int,
    data: DataView,
    canon: Seq<Seq<char>>,
    save: Option<Seq<char>>,
) -> bool {
    let e = before.photos()[index];
    let gs = before.galleries();
    &&& after.photos() == before.photos().update(index, EntryView { data, ..e })
    &&& match e.galerie_source {
        Some(p) => if is_loaded(gs, p) {
            &&& save == Some(p)
            &&& after.galleries() == with_gallery(
                gs,
                p,
                GalleryView {
                    photos: recorded(gallery_at(gs, p).photos, canon, e.path, e.hash, data),
                    ..gallery_at(gs, p)
                },
            )
        } else {
            save is None && after.galleries() == gs
        },
        None => save is None && after.galleries() == gs,
    }
}

/// The presets of the gallery file under `path`; none where it is not open.
pub open spec fn presets_at(galleries: Seq<(Seq<char>, GalleryView)>, path: Seq<char>) -> Seq<
    PresetView,
> {
    if is_loaded(galleries, path) {
        gallery_at(galleries, path).presets
    } else {
        Seq::empty()
    }
}

/// Presets, each with the path of its file.
pub open spec fn tagged(presets: Seq<PresetView>, path: Seq<char>) -> Seq<(PresetView, Seq<char>)> {
    Seq::new(presets.len(), |i: int| (presets[i], path))
}

/// The presets of gallery files, each with the path of its file.
pub open spec fn presets_of(galleries: Seq<(Seq<char>, GalleryView)>) -> Seq<(PresetView, Seq<char>)>
    decreases galleries.len(),
{
    if galleries.len() == 0 {
        Seq::empty()
    } else {
        presets_of(galleries.drop_last()) + tagged(galleries.last().1.presets, galleries.last().0)
    }
}

/// The contents of a list of presets with the paths of their files.
pub open spec fn preset_list(list: Seq<(FilterPreset, String)>) -> Seq<(PresetView, Seq<char>)> {
    Seq::new(list.len(), |i: int| (list[i].0.deep_view(), list[i].1@))
}

pub proof fn lemma_gallery_at(galleries: Seq<(Seq<char>, GalleryView)>, path: Seq<char>, i: int)
    requires
        paths_differ(galleries),
        0 <= i < galleries.len(),
        galleries[i].0 == path,
    ensures
        is_loaded(galleries, path),
        gallery_at(galleries, path) == galleries[i].1,
{
    let j = choose|j: int| 0 <= j < galleries.len() && (#[trigger] galleries[j]).0 == path;
    assert(galleries[j].0 == path);
    if i < j {
        assert(galleries[i].0 != galleries[j].0);
    } else if j < i {
        assert(galleries[j].0 != galleries[i].0);
    }
}

fn place_of_path(canon: &Vec<String>, path: &str) -> (i: usize)
    ensures
        i == first_of(canon.deep_view(), path@),
        i <= canon@.len(),
{
    let ghost c = canon.deep_view();
    let mut i: usize = 0;
    while i < canon.len() && !text::same(canon[i].as_str(), path)
        invariant
            i <= canon@.len(),
            c == canon.deep_view(),
            forall|k: int| 0 <= k < i ==> #[trigger] c[k] != path@,
        decreases canon@.len() - i,
    {
        assert(c[i as int] == canon@[i as int]@);
        i += 1;
    }
    proof {
        if i < canon@.len() {
            assert(c[i as int] == canon@[i as int]@);
        }
        lemma_first_of(c, path@, i as int);
    }
    i
}

fn place_of_hash(photos: &Vec<GalleryEntry>, hash: &str) -> (i: usize)
    ensures
        i == first_of(hashes_of(photos.deep_view()), hash@),
        i <= photos@.len(),
{
    let ghost h = hashes_of(photos.deep_view());
    let mut i: usize = 0;
    while i < photos.len() && !text::same(photos[i].hash.as_str(), hash)
        invariant
            i <= photos@.len(),
            h == hashes_of(photos.deep_view()),
            forall|k: int| 0 <= k < i ==> #[trigger] h[k] != hash@,
        decreases photos@.len() - i,
    {
        assert(h[i as int] == photos@[i as int].hash@);
        i += 1;
    }
    proof {
        if i < photos@.len() {
            assert(h[i as int] == photos@[i as int].hash@);
        }
        lemma_first_of(h, hash@, i as int);
    }
    i
}

fn record(
    photos: &mut Vec<GalleryEntry>,
    canon: &Vec<String>,
    path: &str,
    hash: &str,
    data: PhotoData,
)
    requires
        canon@.len() == old(photos)@.len(),
    ensures
        final(photos).deep_view() == recorded(
            old(photos).deep_view(),
            canon.deep_view(),
            path@,
            hash@,
            data.deep_view(),
        ),
{
    let ghost all = photos.deep_view();
    let mut i = place_of_path(canon, path);
    if i == photos.len() {
        i = place_of_hash(photos, hash);
    }
    if i < photos.len() {
        let PhotoData { rating, filters, annotations } = data;
        photos[i].filters = filters;
        photos[i].rating = rating;
        photos[i].annotations = annotations;
        assert(photos.deep_view() =~= recorded(
            all,
            canon.deep_view(),
            path@,
            hash@,
            data.deep_view(),
        ));
    }
}

/// What is noted for a photo is read back from its gallery file, for that photo and for no other: the
/// entries are those from before, but for the data of the photo. An earlier photo of the file must not
/// have the same path.
pub proof fn noted_data_is_read_back(
    photos: Seq<GalleryEntryView>,
    canon: Seq<Seq<char>>,
    path: Seq<char>,
    hash: Seq<char>,
    data: DataView,
    found: Seq<Option<Seq<char>>>,
    computed: Seq<Option<Seq<char>>>,
    source: Seq<char>,
    start: nat,
    k: int,
)
    requires
        canon.len() == photos.len(),
        0 <= k < photos.len(),
        canon[k] == path,
        forall|i: int| 0 <= i < k ==> #[trigger] canon[i] != path,
        found[k] == Some(path),
        hash_to_use(photos[k].hash, computed[k]) is Some,
    ensures
        ({
            let before = gallery_entries(photos, found, computed, source, start);
            let after = gallery_entries(
                recorded(photos, canon, path, hash, data),
                found,
                computed,
                source,
                start,
            );
            let at = gallery_entries(photos.take(k), found, computed, source, start).len() as int;
            &&& at < before.len()
            &&& before[at].path == path
            &&& before[at].data == photos[k].data
            &&& after == before.update(at, EntryView { data, ..before[at] })
        }),
{
    lemma_first_of(canon, path, k);
    lemma_other_data(photos, data, found, computed, source, start, k);
}

/// Other data for a photo changes its entry, and no other.
proof fn lemma_other_data(
    photos: Seq<GalleryEntryView>,
    data: DataView,
    found: Seq<Option<Seq<char>>>,
    computed: Seq<Option<Seq<char>>>,
    source: Seq<char>,
    start: nat,
    k: int,
)
    requires
        0 <= k < photos.len(),
        found[k] is Some,
        hash_to_use(photos[k].hash, computed[k]) is Some,
    ensures
        ({
            let before = gallery_entries(photos, found, computed, source, start);
            let after = gallery_entries(
                photos.update(k, GalleryEntryView { data, ..photos[k] }),
                found,
                computed,
                source,
                start,
            );
            let at = gallery_entries(photos.take(k), found, computed, source, start).len() as int;
            &&& at < before.len()
            &&& before[at].path == found[k]->0
            &&& before[at].data == photos[k].data
            &&& after == before.update(at, EntryView { data, ..before[at] })
        }),
    decreases photos.len(),
{
    let new = photos.update(k, GalleryEntryView { data, ..photos[k] });
    let rest = photos.drop_last();
    if k == photos.len() - 1 {
        assert(photos.take(k) == rest);
        assert(new.drop_last() == rest);
    } else {
        assert(rest.take(k) == photos.take(k));
        assert(new.drop_last() == rest.update(k, GalleryEntryView { data, ..rest[k] }));
        lemma_other_data(rest, data, found, computed, source, start, k);
    }
    let before = gallery_entries(photos, found, computed, source, start);
    let after = gallery_entries(new, found, computed, source, start);
    let at = gallery_entries(photos.take(k), found, computed, source, start).len() as int;
    assert(after =~= before.update(at, EntryView { data, ..before[at] }));
}

} // verus!
