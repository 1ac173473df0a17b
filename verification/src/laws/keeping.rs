//! Galleries, collections and decoded images: what is kept, and where.
use crate::cli::{classifies, exported_as, plain_gallery, PathArg};
use crate::collection::{
    directory_entries, first_match, first_of, fits_gallery, gallery_at, gallery_entries,
    hash_to_use, is_loaded, is_rehashed, is_updated, lemma_gallery_at, paths_differ, photo_paths,
    presets_at, presets_of, recorded, rehashed, with_gallery, FoundFile, HashedFile,
    PhotoCollection,
};
use crate::editing::gallery_filters_are_set;
use crate::filters::{composed, FilterView};
use crate::gallery::{
    base64_bytes, extension_of, head, is_key, is_photo_name, numbers_of, resolved_paths, supported,
    toggled_members, toggled_photos, vector_of, with_resolved_paths, AnnotationView,
    BackgroundColor, DataView, EditGallery, GalleryEntryView, GalleryView, InputArg,
};
use crate::image_cache::{
    at_least_as_good, lemma_value_without, put_in, used, value_of, without, CacheView, LoadState,
};
use crate::laws::searching::lemma_picked;
use crate::laws::words::padding_keeps_the_number;
use crate::pixels::ImageHistogram;
use crate::text::{begins_with, lowercase_text, padded_text};
use vstd::prelude::*;

verus! {

/// Toggling changes the membership of one path and of no other.
pub proof fn toggling_concerns_one_path(
    members: Set<Seq<char>>,
    path: Seq<char>,
    other: Seq<char>,
)
    ensures
        toggled_members(members, path).contains(path) <==> !members.contains(path),
        other != path ==> (toggled_members(members, path).contains(other) <==> members.contains(
            other,
        )),
{
}

/// A photo that goes in stands last, with its hash and nothing else known of it. A photo that goes
/// out takes all entries of its path with it; the others stay as they are, in order.
pub proof fn toggling_adds_last_or_removes(
    photos: Seq<GalleryEntryView>,
    members: Set<Seq<char>>,
    path: Seq<char>,
    hash: Seq<char>,
    e: GalleryEntryView,
)
    ensures
        !members.contains(path) ==> {
            let after = toggled_photos(photos, members, path, hash);
            &&& after.len() == photos.len() + 1
            &&& after.drop_last() == photos
            &&& after.last().path == path
            &&& after.last().hash == hash
            &&& after.last().data.rating is None
            &&& after.last().data.filters.len() == 0
            &&& after.last().data.annotations.len() == 0
        },
        members.contains(path) ==> {
            let after = toggled_photos(photos, members, path, hash);
            &&& after.contains(e) <==> photos.contains(e) && e.path != path
            &&& e.path != path ==> toggled_photos(photos.push(e), members, path, hash) == after.push(
                e,
            )
            &&& e.path == path ==> toggled_photos(photos.push(e), members, path, hash) == after
        },
{
    if members.contains(path) {
        let others = |x: GalleryEntryView| x.path != path;
        let after = toggled_photos(photos, members, path, hash);
        assert(after == photos.filter(others));
        lemma_picked(photos, others);
        if photos.contains(e) && e.path != path {
            assert(others(e));
        }
        if after.contains(e) {
            let i = choose|i: int| 0 <= i < after.len() && after[i] == e;
            assert(photos.contains(photos.filter(others)[i]));
        }
        assert(photos.push(e).filter(others) == if others(e) {
            after.push(e)
        } else {
            after
        }) by {
            reveal(Seq::filter);
            assert(photos.push(e).drop_last() == photos);
        }
    }
}

/// When a gallery is opened, the photos that can be found get their absolute paths; everything else
/// of them, and all other photos, stay.
pub proof fn resolving_sets_paths(
    photos: Seq<GalleryEntryView>,
    resolved: Seq<Option<Seq<char>>>,
    i: int,
)
    requires
        0 <= i < photos.len(),
        resolved.len() == photos.len(),
    ensures
        with_resolved_paths(photos, resolved).len() == photos.len(),
        ({
            let e = with_resolved_paths(photos, resolved)[i];
            &&& resolved[i] matches Some(p) ==> e.path == p
            &&& resolved[i] is None ==> e.path == photos[i].path
            &&& e.hash == photos[i].hash
            &&& e.data == photos[i].data
        }),
{
}

/// A number is kept in four bytes, the lowest first.
pub proof fn numbers_have_four_bytes(bytes: Seq<u8>, i: int)
    requires
        0 <= i,
        4 * i + 3 < bytes.len(),
    ensures
        numbers_of(bytes).len() == bytes.len() / 4,
        numbers_of(bytes)[i].bits == bytes[4 * i] + 256 * bytes[4 * i + 1] + 65536 * bytes[4 * i + 2]
            + 16777216 * bytes[4 * i + 3],
{
}

/// A vector is read from an embedding under its own name, of readable text that holds whole
/// numbers; from nothing else.
pub proof fn vectors_are_read_from_embeddings(a: AnnotationView, ns: Seq<char>)
    ensures
        vector_of(a, ns) is Some <==> a is Embedding && a->Embedding_namespace == ns && (
        base64_bytes(a->data) matches Some(bytes) && bytes.len() % 4 == 0),
        vector_of(a, ns) matches Some(v) ==> v == numbers_of(base64_bytes(a->data)->0),
{
}

/// The first bytes of a file, up to 128 KiB, decide on its hash.
pub proof fn the_head_is_hashed(file: Seq<u8>, tail: Seq<u8>)
    ensures
        file.len() <= 131072 ==> head(file) == file,
        file.len() == 131072 ==> head(file + tail) == file,
        head(file).len() <= 131072,
{
    if file.len() == 131072 {
        assert(head(file + tail) =~= file);
    }
}

/// A hash is written with sixteen digits in base 16, in either case.
pub proof fn keys_have_sixteen_digits(s: Seq<char>)
    ensures
        is_key(s) <==> s.len() == 16 && forall|i: int|
            0 <= i < s.len() ==> '0' <= (#[trigger] s[i]) <= '9' || 'a' <= s[i] <= 'f' || 'A' <= s[i]
                <= 'F',
{
}

/// The extension of a file name is what follows its last dot, unless that dot comes first.
pub proof fn extensions_follow_the_last_dot(stem: Seq<char>, ext: Seq<char>)
    requires
        forall|i: int| 0 <= i < ext.len() ==> #[trigger] ext[i] != '.',
    ensures
        stem.len() > 0 ==> extension_of(stem + seq!['.'] + ext) == Some(ext),
        extension_of(seq!['.'] + ext) == None::<Seq<char>>,
        extension_of(ext) == None::<Seq<char>>,
    decreases ext.len(),
{
    let name = stem + seq!['.'] + ext;
    let hidden = seq!['.'] + ext;
    if ext.len() > 0 {
        let less = ext.drop_last();
        assert(name.drop_last() == stem + seq!['.'] + less);
        assert(hidden.drop_last() == seq!['.'] + less);
        assert(name.last() == ext.last());
        assert(hidden.last() == ext.last());
        assert forall|i: int| 0 <= i < less.len() implies #[trigger] less[i] != '.' by {
            assert(less[i] == ext[i]);
        }
        extensions_follow_the_last_dot(stem, less);
        assert(less.push(ext.last()) == ext);
    } else {
        assert(name.last() == '.');
        assert(ext == Seq::<char>::empty());
    }
}

/// A photo has one of six extensions, in whatever case.
pub proof fn photos_are_told_by_extension(stem: Seq<char>, ext: Seq<char>)
    requires
        stem.len() > 0,
        forall|i: int| 0 <= i < ext.len() ==> #[trigger] ext[i] != '.',
        stem + seq!['.'] + ext != ".."@,
    ensures
        is_photo_name(stem + seq!['.'] + ext) <==> {
            let e = lowercase_text(ext);
            e == "jpg"@ || e == "jpeg"@ || e == "png"@ || e == "webp"@ || e == "tif"@ || e == "tiff"@
        },
        !is_photo_name(ext),
{
    extensions_follow_the_last_dot(stem, ext);
    let e = lowercase_text(ext);
    let known = supported();
    assert(known[0] == "jpg"@);
    assert(known[1] == "jpeg"@);
    assert(known[2] == "png"@);
    assert(known[3] == "webp"@);
    assert(known[4] == "tif"@);
    assert(known[5] == "tiff"@);
    if known.contains(e) {
        let i = choose|i: int| 0 <= i < known.len() && known[i] == e;
        assert(known[i] == e);
    }
}

/// Of what is found in a directory, the files with names of photos are listed, in order.
pub proof fn photo_files_are_listed(found: Seq<FoundFile>, f: FoundFile)
    ensures
        photo_paths(Seq::empty()).len() == 0,
        f.is_file && is_photo_name(f.name@) ==> photo_paths(found.push(f)) == photo_paths(
            found,
        ).push(f.path@),
        !(f.is_file && is_photo_name(f.name@)) ==> photo_paths(found.push(f)) == photo_paths(found),
{
    assert(found.push(f).drop_last() == found);
}

/// The photos of a directory are numbered on from the ones before them. One that could not be read
/// is left out; of the others nothing is known but path and hash, and they come from no gallery.
pub proof fn directories_are_numbered_on(files: Seq<HashedFile>, f: HashedFile, start: nat, i: int)
    requires
        0 <= i < directory_entries(files, start).len(),
    ensures
        directory_entries(files, start)[i].index == start + i,
        directory_entries(files, start)[i].galerie_source is None,
        f.hash is None ==> directory_entries(files.push(f), start) == directory_entries(files, start),
        f.hash matches Some(h) ==> {
            let after = directory_entries(files.push(f), start);
            &&& after.len() == directory_entries(files, start).len() + 1
            &&& after.drop_last() == directory_entries(files, start)
            &&& after.last().path == f.path@
            &&& after.last().hash == h@
            &&& after.last().data.rating is None
            &&& after.last().data.filters.len() == 0
            &&& after.last().data.annotations.len() == 0
        },
    decreases files.len(),
{
    assert(files.push(f).drop_last() == files);
    let less = directory_entries(files.drop_last(), start);
    if i < less.len() {
        directories_are_numbered_on(files.drop_last(), f, start, i);
    }
}

/// A stored hash is kept if it has the form of one; else the computed one takes its place.
pub proof fn good_hashes_are_kept(stored: Seq<char>, computed: Option<Seq<char>>)
    ensures
        is_key(stored) ==> hash_to_use(stored, computed) == Some(stored),
        !is_key(stored) ==> hash_to_use(stored, computed) == computed,
{
}

/// The photos of a gallery file that are found and have a hash become entries, in order: with their
/// own path, hash and data, numbered on from those before them, and with the file they come from.
/// Others are left out.
pub proof fn gallery_photos_become_entries(
    photos: Seq<GalleryEntryView>,
    found: Seq<Option<Seq<char>>>,
    computed: Seq<Option<Seq<char>>>,
    source: Seq<char>,
    start: nat,
)
    requires
        photos.len() > 0,
    ensures
        ({
            let n = photos.len() - 1;
            let before = gallery_entries(photos.drop_last(), found, computed, source, start);
            let after = gallery_entries(photos, found, computed, source, start);
            &&& found[n] is None ==> after == before
            &&& !is_key(photos[n].hash) && computed[n] is None ==> after == before
            &&& found[n] is Some && (is_key(photos[n].hash) || computed[n] is Some) ==> {
                &&& after.len() == before.len() + 1
                &&& after.drop_last() == before
                &&& after.last().index == start + before.len()
                &&& after.last().path == found[n]->0
                &&& after.last().hash == if is_key(photos[n].hash) {
                    photos[n].hash
                } else {
                    computed[n]->0
                }
                &&& after.last().data == photos[n].data
                &&& after.last().galerie_source == Some(source)
            }
        }),
{
}

/// A photo without a good hash gets the computed one in its file, if it is found; nothing else of
/// the file's photos changes.
pub proof fn only_hashes_are_filled_in(
    photos: Seq<GalleryEntryView>,
    found: Seq<Option<Seq<char>>>,
    computed: Seq<Option<Seq<char>>>,
    i: int,
)
    requires
        0 <= i < photos.len(),
    ensures
        rehashed(photos, found, computed).len() == photos.len(),
        rehashed(photos, found, computed)[i].path == photos[i].path,
        rehashed(photos, found, computed)[i].data == photos[i].data,
        rehashed(photos, found, computed)[i].hash == if found[i] is Some && !is_key(photos[i].hash)
            && computed[i] is Some {
            computed[i]->0
        } else {
            photos[i].hash
        },
        is_rehashed(photos[i], found[i], computed[i]) ==> rehashed(photos, found, computed)[i].hash
            == computed[i]->0,
{
}

/// The first place of a text: it stands there and nowhere before; or nowhere at all.
pub proof fn first_places_are_first(texts: Seq<Seq<char>>, t: Seq<char>)
    ensures
        0 <= first_of(texts, t) <= texts.len(),
        first_of(texts, t) < texts.len() ==> texts[first_of(texts, t)] == t,
        forall|i: int| 0 <= i < first_of(texts, t) ==> #[trigger] texts[i] != t,
        first_of(texts, t) == texts.len() <==> !texts.contains(t),
    decreases texts.len(),
{
    if texts.len() > 0 && texts[0] != t {
        let rest = texts.drop_first();
        first_places_are_first(rest, t);
        assert forall|i: int| 0 <= i < first_of(texts, t) implies #[trigger] texts[i] != t by {
            if i > 0 {
                assert(rest[i - 1] == texts[i]);
            }
        }
    }
    let at = first_of(texts, t);
    if at < texts.len() {
        if texts.len() > 0 && texts[0] != t {
            assert(texts.drop_first()[at - 1] == texts[at]);
        }
        assert(texts.contains(t));
    }
}

/// Data for a photo is noted in its gallery file at the photo's path. Only where that path is not
/// there is it noted at the photo's hash, and where that is not there either, nowhere. One photo at
/// most changes, and only its data.
pub proof fn data_is_noted_by_path_then_hash(
    photos: Seq<GalleryEntryView>,
    canon: Seq<Seq<char>>,
    path: Seq<char>,
    hash: Seq<char>,
    data: DataView,
    i: int,
)
    requires
        canon.len() == photos.len(),
        0 <= i < photos.len(),
    ensures
        ({
            let after = recorded(photos, canon, path, hash, data);
            let by_path = canon.contains(path);
            let chosen = if by_path {
                canon[i] == path && forall|k: int| 0 <= k < i ==> #[trigger] canon[k] != path
            } else {
                photos[i].hash == hash && forall|k: int|
                    0 <= k < i ==> (#[trigger] photos[k]).hash != hash
            };
            &&& after.len() == photos.len()
            &&& after[i].path == photos[i].path
            &&& after[i].hash == photos[i].hash
            &&& chosen ==> after[i].data == data
            &&& !chosen ==> after[i] == photos[i]
        }),
{
    let hashes = crate::collection::hashes_of(photos);
    first_places_are_first(canon, path);
    first_places_are_first(hashes, hash);
    let at = first_match(photos, canon, path, hash);
    if canon.contains(path) {
        assert(canon[at] == path);
        if i < at {
            assert(canon[i] != path);
        }
    } else {
        assert(at == first_of(hashes, hash));
        assert(hashes[i] == photos[i].hash);
        if at < photos.len() {
            assert(hashes[at] == photos[at].hash);
        }
        if i == at {
            assert forall|k: int| 0 <= k < i implies (#[trigger] photos[k]).hash != hash by {
                assert(hashes[k] != hash);
            }
        } else if i < at {
            assert(hashes[i] != hash);
        } else {
            assert(photos[at].hash == hash);
        }
    }
}

/// Changing an open gallery file changes that file: it is read back under its path, and all others
/// stay. Where it is not open, none changes.
pub proof fn one_gallery_changes(
    galleries: Seq<(Seq<char>, GalleryView)>,
    path: Seq<char>,
    g: GalleryView,
    i: int,
)
    requires
        paths_differ(galleries),
        0 <= i < galleries.len(),
    ensures
        with_gallery(galleries, path, g).len() == galleries.len(),
        with_gallery(galleries, path, g)[i].0 == galleries[i].0,
        galleries[i].0 != path ==> with_gallery(galleries, path, g)[i] == galleries[i],
        galleries[i].0 == path ==> with_gallery(galleries, path, g)[i].1 == g && gallery_at(
            with_gallery(galleries, path, g),
            path,
        ) == g && gallery_at(galleries, path) == galleries[i].1,
        !is_loaded(galleries, path) ==> with_gallery(galleries, path, g) == galleries,
{
    let after = with_gallery(galleries, path, g);
    if galleries[i].0 == path {
        assert forall|j: int, k: int| 0 <= j < k < after.len() implies (#[trigger] after[j]).0 != (
        #[trigger] after[k]).0 by {
            assert(galleries[j].0 != galleries[k].0);
        }
        lemma_gallery_at(after, path, i);
        lemma_gallery_at(galleries, path, i);
    }
    if !is_loaded(galleries, path) {
        assert(after =~= galleries);
    }
}

/// The presets of the open gallery files stand one file after the other, each with the path of its
/// file.
pub proof fn presets_stand_file_by_file(
    galleries: Seq<(Seq<char>, GalleryView)>,
    path: Seq<char>,
    g: GalleryView,
    i: int,
)
    requires
        0 <= i < g.presets.len(),
    ensures
        presets_of(Seq::empty()).len() == 0,
        ({
            let before = presets_of(galleries);
            let after = presets_of(galleries.push((path, g)));
            &&& after.len() == before.len() + g.presets.len()
            &&& after.take(before.len() as int) == before
            &&& after[before.len() + i] == (g.presets[i], path)
        }),
{
    assert(galleries.push((path, g)).drop_last() == galleries);
}

/// Backgrounds are gone through from black over gray to white.
pub proof fn backgrounds_grow_lighter()
    ensures
        BackgroundColor::Black.next() == BackgroundColor::Gray,
        BackgroundColor::Gray.next() == BackgroundColor::White,
        BackgroundColor::White.next() == BackgroundColor::Black,
{
}

/// An image in full resolution is as good as any, and of two smaller ones the one with more pixels
/// is better.
pub proof fn more_pixels_are_better(a: u32, b: u32, q: Option<u32>)
    ensures
        at_least_as_good(None, q),
        !at_least_as_good(Some(a), None),
        at_least_as_good(Some(a), Some(b)) <==> a >= b,
{
}

/// An image that is taken stands first. The others stay behind it in their order, but for an older
/// one of the same photo, and for the last one where the cache is full of other photos.
pub proof fn new_images_stand_first(
    entries: Seq<(usize, Option<u32>)>,
    limit: nat,
    key: usize,
    value: Option<u32>,
    other: usize,
)
    requires
        entries.len() <= limit,
        limit > 0,
        other != key,
    ensures
        put_in(entries, limit, key, value)[0] == (key, value),
        value_of(put_in(entries, limit, key, value), key) == Some(value),
        value_of(entries, key) is Some || entries.len() < limit ==> value_of(
            put_in(entries, limit, key, value),
            other,
        ) == value_of(entries, other),
        value_of(entries, key) is None && entries.len() < limit ==> put_in(
            entries,
            limit,
            key,
            value,
        ).drop_first() == entries,
        value_of(entries, key) is None && entries.len() == limit ==> put_in(
            entries,
            limit,
            key,
            value,
        ).drop_first() == entries.drop_last(),
        put_in(entries, limit, key, value).len() <= limit,
{
    let after = put_in(entries, limit, key, value);
    assert(after[0] == (key, value));
    if value_of(entries, key) is Some {
        assert(after.drop_first() == without(entries, key));
        lemma_value_without(entries, key, other);
        lemma_fewer(entries, key);
    } else if entries.len() < limit {
        assert(after.drop_first() == entries);
    } else {
        assert(after.drop_first() == entries.drop_last());
    }
}

/// Taking a photo out that is there makes a list shorter.
proof fn lemma_fewer(entries: Seq<(usize, Option<u32>)>, key: usize)
    ensures
        without(entries, key).len() <= entries.len(),
        value_of(entries, key) is Some ==> without(entries, key).len() < entries.len(),
    decreases entries.len(),
{
    let rest = entries.drop_last();
    reveal(Seq::filter);
    if entries.len() > 0 {
        lemma_fewer(rest, key);
        if value_of(entries, key) is Some && entries.last().0 != key {
            lemma_found_before(entries, key);
        }
    }
}

/// What is found, and is not the last, is found without the last.
proof fn lemma_found_before(entries: Seq<(usize, Option<u32>)>, key: usize)
    requires
        entries.len() > 0,
        value_of(entries, key) is Some,
        entries.last().0 != key,
    ensures
        value_of(entries.drop_last(), key) is Some,
    decreases entries.len(),
{
    let rest = entries.drop_last();
    if entries[0].0 != key {
        assert(entries.len() > 1) by {
            if entries.len() == 1 {
                assert(entries.drop_first().len() == 0);
            }
        }
        lemma_found_before(entries.drop_first(), key);
        assert(entries.drop_first().drop_last() == rest.drop_first());
        assert(rest[0] == entries[0]);
    } else {
        assert(rest.len() > 0);
        assert(rest[0] == entries[0]);
    }
}

/// An image that is looked at moves to the front, and nothing is lost or gained.
pub proof fn looking_moves_to_the_front(
    entries: Seq<(usize, Option<u32>)>,
    key: usize,
    other: usize,
)
    ensures
        value_of(entries, key) is Some ==> used(entries, key).len() > 0 && used(entries, key)[0]
            == (key, value_of(entries, key)->0),
        value_of(entries, key) is None ==> used(entries, key) == entries,
        value_of(used(entries, key), other) == value_of(entries, other),
{
    let after = used(entries, key);
    if let Some(v) = value_of(entries, key) {
        assert(after[0] == (key, v));
        assert(after.drop_first() == without(entries, key));
        lemma_value_without(entries, key, other);
    }
}

/// An image that came in is no longer waited for, and neither is its error kept once it is taken;
/// its histogram is kept if there is one. Whether other photos are waited for, failed or have a
/// histogram stays as it was.
pub proof fn settling_concerns_one_photo(
    cache: CacheView,
    index: usize,
    max_size: Option<u32>,
    histogram: Option<ImageHistogram>,
    other: usize,
)
    requires
        other != index,
    ensures
        ({
            let after = cache.settled(index, max_size, histogram);
            &&& !after.pending.contains_key(index)
            &&& after.pending.contains_key(other) == cache.pending.contains_key(other)
            &&& cache.takes(index, max_size) ==> !after.errors.contains_key(index)
            &&& !cache.takes(index, max_size) ==> after.entries == cache.entries && after.errors
                == cache.errors
            &&& after.errors.contains_key(other) == cache.errors.contains_key(other)
            &&& histogram matches Some(h) ==> after.histograms.contains_key(index)
                && after.histograms[index] == h
            &&& histogram is None ==> after.histograms == cache.histograms
            &&& after.histograms.contains_key(other) == cache.histograms.contains_key(other)
            &&& after.limit == cache.limit
        }),
        cache.takes(index, max_size) <==> match value_of(cache.entries, index) {
            Some(have) => at_least_as_good(max_size, have),
            None => true,
        },
{
}

/// A photo that could not be decoded is no longer waited for, and its error is kept; its image, and
/// all other photos, stay.
pub proof fn failing_concerns_one_photo(cache: CacheView, index: usize, error: String, other: usize)
    requires
        other != index,
    ensures
        ({
            let after = cache.failed(index, error);
            &&& !after.pending.contains_key(index)
            &&& after.errors.contains_key(index)
            &&& after.errors[index] == error
            &&& after.entries == cache.entries
            &&& after.histograms == cache.histograms
            &&& after.pending.contains_key(other) == cache.pending.contains_key(other)
            &&& after.errors.contains_key(other) == cache.errors.contains_key(other)
        }),
{
}

/// A photo that is forgotten is as if it had never been asked for; all others stay as they are.
pub proof fn forgetting_concerns_one_photo(
    cache: CacheView,
    index: usize,
    max_size: Option<u32>,
    other: usize,
)
    requires
        other != index,
    ensures
        ({
            let after = cache.forgetting(index);
            &&& value_of(after.entries, index) is None
            &&& !after.pending.contains_key(index)
            &&& !after.errors.contains_key(index)
            &&& !after.histograms.contains_key(index)
            &&& after.shows(index, LoadState::NotRequested)
            &&& after.wants(index, max_size) == Some(max_size)
            &&& value_of(after.entries, other) == value_of(cache.entries, other)
            &&& after.wants(other, max_size) == cache.wants(other, max_size)
            &&& after.limit == cache.limit
        }),
        ({
            let after = cache.emptied();
            &&& after.shows(other, LoadState::NotRequested)
            &&& after.wants(other, max_size) == Some(max_size)
            &&& after.limit == cache.limit
        }),
{
    lemma_value_without(cache.entries, index, index);
    lemma_value_without(cache.entries, index, other);
}

/// An image at hand is shown, whatever else is known of its photo; else an error is; else that it
/// is waited for.
pub proof fn images_are_shown_before_errors(cache: CacheView, index: usize, state: LoadState)
    requires
        cache.shows(index, state),
    ensures
        state is Ready <==> value_of(cache.entries, index) is Some,
        state is Error <==> value_of(cache.entries, index) is None && cache.errors.contains_key(
            index,
        ),
        state is Pending <==> value_of(cache.entries, index) is None && !cache.errors.contains_key(
            index,
        ) && cache.pending.contains_key(index),
{
}

/// A photo is asked for as wanted when nothing is known of it; in full resolution when what is at
/// hand, or on its way, is not good enough; and not at all when that is good enough, or when it
/// could not be decoded.
pub proof fn photos_are_asked_for_when_needed(cache: CacheView, index: usize, max_size: Option<u32>)
    ensures
        ({
            let wanted = cache.wants(index, max_size);
            &&& wanted is None || wanted == Some(max_size) || wanted == Some(None::<u32>)
            &&& value_of(cache.entries, index) matches Some(have) ==> at_least_as_good(
                have,
                max_size,
            ) ==> wanted is None
            &&& value_of(cache.entries, index) is None && cache.errors.contains_key(index) ==> wanted
                is None
            &&& value_of(cache.entries, index) is None && !cache.errors.contains_key(index)
                && !cache.pending.contains_key(index) ==> wanted == Some(max_size)
            &&& cache.pending.contains_key(index) && cache.pending[index] is None ==> wanted is None
            &&& value_of(cache.entries, index) is None && !cache.errors.contains_key(index)
                && cache.pending.contains_key(index) ==> wanted == if at_least_as_good(
                cache.pending[index],
                max_size,
            ) {
                None
            } else {
                Some(None::<u32>)
            }
            &&& value_of(cache.entries, index) matches Some(have) ==> !at_least_as_good(
                have,
                max_size,
            ) && !cache.pending.contains_key(index) ==> wanted == Some(None::<u32>)
        }),
{
}

/// Data that is noted for a photo is the photo's data from then on. Nothing else of it changes, nor
/// does any other photo. The file that the photo comes from is to be written, if it is open; its
/// photos alone may change, and no other file does.
#[verifier::spinoff_prover]
pub proof fn noting_data_concerns_one_photo(
    before: PhotoCollection,
    after: PhotoCollection,
    index: int,
    data: DataView,
    canon: Seq<Seq<char>>,
    save: Option<Seq<char>>,
    j: int,
    g: int,
)
    requires
        before.wf(),
        0 <= index < before.photos().len(),
        is_updated(before, after, index, data, canon, save),
        0 <= j < before.photos().len(),
        j != index,
        0 <= g < before.galleries().len(),
    ensures
        ({
            let was = before.photos()[index];
            let is = after.photos()[index];
            let file = before.galleries()[g];
            let file_now = after.galleries()[g];
            &&& after.photos().len() == before.photos().len()
            &&& after.photos()[j] == before.photos()[j]
            &&& is.data == data
            &&& is.path == was.path
            &&& is.hash == was.hash
            &&& is.index == was.index
            &&& is.galerie_source == was.galerie_source
            &&& after.galleries().len() == before.galleries().len()
            &&& file_now.0 == file.0
            &&& was.galerie_source != Some(file.0) ==> file_now == file
            &&& was.galerie_source == Some(file.0) ==> {
                &&& save == Some(file.0)
                &&& file_now.1.name == file.1.name
                &&& file_now.1.background_color == file.1.background_color
                &&& file_now.1.pre_filters == file.1.pre_filters
                &&& file_now.1.post_filters == file.1.post_filters
                &&& file_now.1.presets == file.1.presets
                &&& file_now.1.photos == recorded(file.1.photos, canon, was.path, was.hash, data)
            }
            &&& save is Some ==> save == was.galerie_source
            &&& was.galerie_source is None ==> save is None && after.galleries()
                == before.galleries()
        }),
{
    let gs = before.galleries();
    let was = before.photos()[index];
    if was.galerie_source == Some(gs[g].0) {
        lemma_gallery_at(gs, gs[g].0, g);
    }
}

/// The presets of an open file are those it holds; of a file that is not open there are none.
pub proof fn presets_are_those_of_the_file(
    galleries: Seq<(Seq<char>, GalleryView)>,
    i: int,
    path: Seq<char>,
)
    requires
        paths_differ(galleries),
        0 <= i < galleries.len(),
    ensures
        presets_at(galleries, galleries[i].0) == galleries[i].1.presets,
        (forall|k: int| 0 <= k < galleries.len() ==> (#[trigger] galleries[k]).0 != path)
            ==> presets_at(galleries, path).len() == 0,
{
    lemma_gallery_at(galleries, galleries[i].0, i);
}

/// The members of a gallery that is opened are the photos that can be found.
pub proof fn found_photos_are_members(resolved: Seq<Option<Seq<char>>>, i: int, p: Seq<char>)
    requires
        0 <= i < resolved.len(),
    ensures
        resolved[i] matches Some(q) ==> resolved_paths(resolved).contains(q),
        resolved_paths(resolved).contains(p) ==> exists|k: int|
            0 <= k < resolved.len() && #[trigger] resolved[k] == Some(p),
{
    if let Some(q) = resolved[i] {
        assert(resolved[i] == Some(q));
    }
}

/// The filters around those of a photo are those of the open gallery file, if there is exactly one.
pub proof fn only_a_single_file_adds_filters(c: PhotoCollection)
    ensures
        c.galleries().len() == 1 ==> c.around() == Some(
            (c.galleries()[0].1.pre_filters, c.galleries()[0].1.post_filters),
        ),
        c.galleries().len() != 1 ==> c.around() is None,
{
}

/// A path names a gallery file when its extension is `galerie`, and else a directory; either way by
/// the path itself.
pub proof fn gallery_files_end_in_galerie(a: PathArg, r: InputArg, stem: Seq<char>)
    requires
        classifies(a, r),
        stem.len() > 0,
    ensures
        (a.name matches Some(n) && n@ == stem + seq!['.'] + "galerie"@) ==> (
        r matches InputArg::GalleryFile(p) && p@ == a.path@),
        a.name is None ==> (r matches InputArg::Directory(p) && p@ == a.path@),
        (a.name matches Some(n) && extension_of(n@) != Some("galerie"@)) ==> (
        r matches InputArg::Directory(p) && p@ == a.path@),
{
    reveal_strlit("galerie");
    reveal_strlit("..");
    assert forall|i: int| 0 <= i < "galerie"@.len() implies #[trigger] "galerie"@[i] != '.' by {}
    extensions_follow_the_last_dot(stem, "galerie"@);
    assert((stem + seq!['.'] + "galerie"@).len() > 8);
    assert(".."@.len() == 2);
}

/// A new gallery has the name of its file and the photos it is given; no background, no filters and
/// no presets.
pub proof fn new_galleries_are_plain(name: String, photos: Seq<GalleryEntryView>)
    ensures
        plain_gallery(Some(name), photos).name == name@,
        plain_gallery(None, photos).name == "gallery"@,
        plain_gallery(None, photos).photos == photos,
        plain_gallery(Some(name), photos).photos == photos,
        plain_gallery(Some(name), photos).background_color is None,
        plain_gallery(Some(name), photos).pre_filters.len() == 0,
        plain_gallery(Some(name), photos).post_filters.len() == 0,
        plain_gallery(Some(name), photos).presets.len() == 0,
{
}

/// A gallery that is opened and written again holds what it held: the same photos in the same
/// order, with what is known of them, the same background and the same presets. Photos that can be
/// found have their absolute paths, and are the members.
pub proof fn opened_galleries_are_written_back(
    g: EditGallery,
    f: GalleryView,
    resolved: Seq<Option<Seq<char>>>,
    pre: Seq<FilterView>,
    post: Seq<FilterView>,
    i: int,
)
    requires
        g.opened_from(f, resolved),
        resolved.len() == f.photos.len(),
        0 <= i < f.photos.len(),
    ensures
        ({
            let again = g.written(pre, post);
            &&& again.photos.len() == f.photos.len()
            &&& again.photos[i].data == f.photos[i].data
            &&& again.photos[i].hash == f.photos[i].hash
            &&& resolved[i] matches Some(p) ==> again.photos[i].path == p && g.members().contains(p)
            &&& resolved[i] is None ==> again.photos[i].path == f.photos[i].path
            &&& again.background_color == f.background_color
            &&& again.presets == f.presets
            &&& again.pre_filters == pre
            &&& again.post_filters == post
            &&& again.name == g.name@
        }),
{
    found_photos_are_members(resolved, i, Seq::empty());
}

/// The filters that a gallery file is given are the filters around those of its photos from then
/// on.
pub proof fn gallery_filters_are_shown(
    a: PhotoCollection,
    b: PhotoCollection,
    pre: Seq<FilterView>,
    post: Seq<FilterView>,
    save: Option<Seq<char>>,
    photo: Seq<FilterView>,
)
    requires
        gallery_filters_are_set(a, b, pre, post, save),
    ensures
        a.galleries().len() == 1 ==> composed(photo, b.around()) == pre + photo + post && save == Some(
            a.galleries()[0].0,
        ),
        a.galleries().len() != 1 ==> composed(photo, b.around()) == photo && save is None,
        b.photos() == a.photos(),
{
}

/// Photos of different numbers are exported to different files.
pub proof fn exported_files_differ(m: nat, n: nat, stem: Seq<char>)
    requires
        m != n,
    ensures
        exported_as(m, stem) != exported_as(n, stem),
        begins_with(exported_as(m, stem), padded_text(m, 4) + "_"@),
{
    padding_keeps_the_number(m, 4);
    padding_keeps_the_number(n, 4);
    let a = padded_text(m, 4);
    let b = padded_text(n, 4);
    let x = exported_as(m, stem);
    let y = exported_as(n, stem);
    assert(x.take(a.len() as int) == a);
    assert(y.take(b.len() as int) == b);
    assert(x.take((a + "_"@).len() as int) == a + "_"@);
    if x == y {
        assert(x.len() == a.len() + "_"@.len() + stem.len() + ".png"@.len());
        assert(y.len() == b.len() + "_"@.len() + stem.len() + ".png"@.len());
        assert(a.len() == b.len());
        assert(a == b);
    }
}

/// The absolute paths of a file's photos fit when there is one for each; for a photo that comes
/// from no open file any number fits.
pub proof fn paths_fit_one_by_one(c: PhotoCollection, index: int, n: nat, g: int)
    requires
        c.wf(),
        0 <= index < c.photos().len(),
        0 <= g < c.galleries().len(),
    ensures
        c.photos()[index].galerie_source == Some(c.galleries()[g].0) ==> (fits_gallery(c, index, n)
            <==> n == c.galleries()[g].1.photos.len()),
        c.photos()[index].galerie_source is None ==> fits_gallery(c, index, n),
{
    if c.photos()[index].galerie_source == Some(c.galleries()[g].0) {
        lemma_gallery_at(c.galleries(), c.galleries()[g].0, g);
    }
}

} // verus!
