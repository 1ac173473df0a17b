//! The filters, the presets and the annotations of the application.
use crate::actions::ActionContext;
use crate::app::{
    first_named, has_preset, preset_index, GalerieApp, PresetEntry, PresetSource, SourceView,
};
use crate::collection::{gallery_at, is_loaded, lemma_gallery_at, presets_at, with_gallery};
use crate::filters::{composed, copy_stack, Filter, FilterView};
use crate::gallery::{EditGallery, EntryView, FilterPreset, GalleryView, PresetView};
use crate::image_cache::{value_of, CacheView};
use crate::panels::now_says;
use crate::text;
use std::collections::HashSet;
use vstd::prelude::*;

verus! {

broadcast use {
    vstd::string::group_string_axioms,
    vstd::std_specs::hash::group_hash_axioms,
};

/// The row at `place` is open after the row `removed` was taken out and those below it moved up.
pub open spec fn stays_open(open: Set<usize>, removed: usize, place: usize) -> bool {
    if place < removed {
        open.contains(place)
    } else {
        place < usize::MAX && open.contains((place + 1) as usize)
    }
}

/// Where a row goes when the row `removed` is taken out.
pub open spec fn moved_up(row: usize, removed: usize) -> usize {
    if row > removed {
        (row - 1) as usize
    } else {
        row
    }
}

/// The open rows after one was taken out: those below it have moved up.
pub fn accordion_after_remove(set: &HashSet<usize>, removed: usize) -> (r: HashSet<usize>)
    ensures
        forall|place: usize| #[trigger]
            r@.contains(place) <==> stays_open(set@, removed, place),
{
    let mut r: HashSet<usize> = HashSet::new();
    for row in it: set.iter()
        invariant
            forall|place: usize| #[trigger]
                r@.contains(place) ==> stays_open(set@, removed, place),
            forall|i: int|
                0 <= i < it.index() && *(#[trigger] it.seq()[i]) != removed ==> r@.contains(
                    moved_up(*it.seq()[i], removed),
                ),
            it.seq().unref().to_set() == set@,
            forall|x: usize| #[trigger]
                set@.contains(x) ==> exists|i: int|
                    0 <= i < it.seq().len() && *(#[trigger] it.seq()[i]) == x,
    {
        proof {
            let rows = it.seq().unref();
            assert(rows[it.index()] == *row);
            assert(rows.to_set().contains(*row));
        }
        if *row != removed {
            let place = if *row > removed {
                *row - 1
            } else {
                *row
            };
            r.insert(place);
        }
    }
    assert forall|place: usize| stays_open(set@, removed, place) implies #[trigger] r@.contains(
        place,
    ) by {
        let row = if place < removed {
            place
        } else {
            (place + 1) as usize
        };
        assert(set@.contains(row));
        assert(moved_up(row, removed) == place);
    }
    r
}

/// A row is open after another was taken out exactly if it was before.
pub proof fn open_rows_follow_their_filters(open: Set<usize>, removed: usize, row: usize)
    requires
        row != removed,
    ensures
        stays_open(open, removed, moved_up(row, removed)) == open.contains(row),
{
}

/// A stack with its presets replaced by their filters. One that is not at hand is left out.
pub open spec fn expanded(
    stack: Seq<FilterView>,
    pool: Seq<(PresetView, SourceView)>,
) -> Seq<FilterView>
    decreases stack.len(),
{
    if stack.len() == 0 {
        Seq::empty()
    } else {
        let before = expanded(stack.drop_last(), pool);
        match stack.last() {
            FilterView::Preset { name } => if has_preset(pool, name) {
                before + pool[first_named(pool, name)].0.filters
            } else {
                before
            },
            f => before.push(f),
        }
    }
}

fn expand(stack: &Vec<Filter>, pool: &Vec<PresetEntry>) -> (r: Vec<Filter>)
    ensures
        r.deep_view() == expanded(stack.deep_view(), pool.deep_view()),
{
    let ghost all = stack.deep_view();
    let mut r: Vec<Filter> = Vec::new();
    assert(r.deep_view() =~= expanded(all.take(0), pool.deep_view()));
    let mut i: usize = 0;
    while i < stack.len()
        invariant
            i <= stack@.len(),
            all == stack.deep_view(),
            r.deep_view() == expanded(all.take(i as int), pool.deep_view()),
        decreases stack@.len() - i,
    {
        let ghost before = r.deep_view();
        proof {
            assert(all.take(i + 1).drop_last() == all.take(i as int));
            assert(all.take(i + 1).last() == stack@[i as int].deep_view());
        }
        match &stack[i] {
            Filter::Preset { name } => {
                if let Some(p) = preset_index(pool, name.as_str()) {
                    assert(pool.deep_view()[p as int].0 == pool@[p as int].preset.deep_view());
                    crate::filters::append_stack(&mut r, &pool[p].preset.filters);
                }
            },
            f => {
                let copy = f.clone();
                r.push(copy);
                assert(r.deep_view() =~= before.push(copy.deep_view()));
            },
        }
        i += 1;
    }
    assert(all.take(i as int) == all);
    r
}

/// A stack without presets is its own expansion.
pub proof fn plain_stacks_stay(stack: Seq<FilterView>, pool: Seq<(PresetView, SourceView)>)
    requires
        forall|i: int| 0 <= i < stack.len() ==> !((#[trigger] stack[i]) is Preset),
    ensures
        expanded(stack, pool) == stack,
    decreases stack.len(),
{
    if stack.len() > 0 {
        let rest = stack.drop_last();
        assert forall|i: int| 0 <= i < rest.len() implies !((#[trigger] rest[i]) is Preset) by {
            assert(rest[i] == stack[i]);
        }
        plain_stacks_stay(rest, pool);
        assert(!(stack[stack.len() - 1] is Preset));
        assert(rest.push(stack.last()) =~= stack);
    }
}

/// A stack names a preset.
pub open spec fn uses_preset(stack: Seq<FilterView>, name: Seq<char>) -> bool {
    stack.contains(FilterView::Preset { name })
}

fn names_preset(stack: &Vec<Filter>, name: &str) -> (b: bool)
    ensures
        b == uses_preset(stack.deep_view(), name@),
{
    let ghost all = stack.deep_view();
    let mut i: usize = 0;
    while i < stack.len()
        invariant
            i <= stack@.len(),
            all == stack.deep_view(),
            forall|k: int| 0 <= k < i ==> #[trigger] all[k] != (FilterView::Preset { name: name@ }),
        decreases stack@.len() - i,
    {
        assert(all[i as int] == stack@[i as int].deep_view());
        if let Filter::Preset { name: n } = &stack[i] {
            if text::same(n.as_str(), name) {
                return true;
            }
        }
        i += 1;
    }
    false
}

/// The cache without anything on those of the photos that use a preset.
pub open spec fn forgetting_users(
    cache: CacheView,
    photos: Seq<EntryView>,
    name: Seq<char>,
) -> CacheView
    decreases photos.len(),
{
    if photos.len() == 0 {
        cache
    } else {
        let before = forgetting_users(cache, photos.drop_last(), name);
        if uses_preset(photos.last().data.filters, name) {
            before.forgetting((photos.len() - 1) as usize)
        } else {
            before
        }
    }
}

impl GalerieApp {
    /// The filters of a photo as it is shown: those that the gallery file puts before, the photo's own
    /// with its presets replaced, and those that the gallery file puts after.
    pub fn effective_filters(&self, display_idx: usize) -> (r: Vec<Filter>)
        requires
            self.wf(),
            display_idx < self.cx.display@.len(),
        ensures
            r.deep_view() == composed(
                expanded(
                    self.cx.collection.photos()[self.cx.display@[display_idx as int] as
                        int].data.filters,
                    self.presets.deep_view(),
                ),
                self.cx.collection.around(),
            ),
    {
        let ci = self.cx.display[display_idx];
        assert(self.cx.collection.photos()[ci as int]
            == self.cx.collection.entries@[ci as int].deep_view());
        let own = expand(&self.cx.collection.entries[ci].data.filters, &self.presets);
        let around = self.cx.collection.galerie_filters();
        crate::filters::compose_filters(&own, &around)
    }

    /// Forgets what is at hand of the photos that use a preset, which has changed.
    pub fn invalidate_preset_dependents(&mut self, preset_name: &str)
        requires
            old(self).wf(),
        ensures
            final(self).wf(),
            final(self).same_panels(*old(self)),
            final(self).cx == (ActionContext { cache: final(self).cx.cache, ..old(self).cx }),
            final(self).cx.cache@ == forgetting_users(
                old(self).cx.cache@,
                old(self).cx.collection.photos(),
                preset_name@,
            ),
    {
        let ghost photos = self.cx.collection.photos();
        let ghost first = self.cx.cache@;
        assert(photos.take(0) =~= Seq::empty());
        let mut i: usize = 0;
        while i < self.cx.collection.entries.len()
            invariant
                i <= self.cx.collection.entries@.len(),
                photos == self.cx.collection.photos(),
                self.wf(),
                self.same_panels(*old(self)),
                self.cx == (ActionContext { cache: self.cx.cache, ..old(self).cx }),
                self.cx.cache@ == forgetting_users(first, photos.take(i as int), preset_name@),
            decreases self.cx.collection.entries@.len() - i,
        {
            proof {
                assert(photos.take(i + 1).drop_last() == photos.take(i as int));
                assert(photos.take(i + 1).last() == self.cx.collection.entries@[i as
                    int].deep_view());
            }
            if names_preset(&self.cx.collection.entries[i].data.filters, preset_name) {
                self.cx.cache.invalidate(i);
            }
            i += 1;
        }
        assert(photos.take(i as int) == photos);
    }
}

/// A change of a preset drops what is at hand of the photos that use it, and of no other.
pub proof fn only_users_are_forgotten(
    cache: CacheView,
    photos: Seq<EntryView>,
    name: Seq<char>,
    index: usize,
)
    requires
        photos.len() <= usize::MAX,
    ensures
        ({
            let after = forgetting_users(cache, photos, name);
            if index < photos.len() && uses_preset(photos[index as int].data.filters, name) {
                &&& value_of(after.entries, index) is None
                &&& !after.pending.contains_key(index)
                &&& !after.errors.contains_key(index)
                &&& !after.histograms.contains_key(index)
            } else {
                &&& value_of(after.entries, index) == value_of(cache.entries, index)
                &&& after.pending.contains_key(index) == cache.pending.contains_key(index)
                &&& after.pending[index] == cache.pending[index]
                &&& after.errors.contains_key(index) == cache.errors.contains_key(index)
                &&& after.errors[index] == cache.errors[index]
                &&& after.histograms.contains_key(index) == cache.histograms.contains_key(index)
                &&& after.histograms[index] == cache.histograms[index]
            }
        }),
    decreases photos.len(),
{
    if photos.len() > 0 {
        let rest = photos.drop_last();
        only_users_are_forgotten(cache, rest, name, index);
        let before = forgetting_users(cache, rest, name);
        let last = (photos.len() - 1) as usize;
        crate::image_cache::lemma_value_without(before.entries, last, index);
        if index < rest.len() {
            assert(rest[index as int] == photos[index as int]);
        }
    }
}

/// The first preset of a name.
pub open spec fn first_of(presets: Seq<PresetView>, name: Seq<char>) -> int
    decreases presets.len(),
{
    if presets.len() == 0 || presets[0].name == name {
        0
    } else {
        1 + first_of(presets.drop_first(), name)
    }
}

/// The presets, the first of the name with other filters.
pub open spec fn with_filters(
    presets: Seq<PresetView>,
    name: Seq<char>,
    filters: Seq<FilterView>,
) -> Seq<PresetView> {
    let i = first_of(presets, name);
    if i < presets.len() {
        presets.update(i, PresetView { filters, ..presets[i] })
    } else {
        presets
    }
}

proof fn lemma_first_of(presets: Seq<PresetView>, name: Seq<char>, i: int)
    requires
        0 <= i <= presets.len(),
        i < presets.len() ==> presets[i].name == name,
        forall|k: int| 0 <= k < i ==> (#[trigger] presets[k]).name != name,
    ensures
        first_of(presets, name) == i,
    decreases presets.len(),
{
    if i > 0 {
        let rest = presets.drop_first();
        assert(presets[0].name != name);
        assert forall|k: int| 0 <= k < i - 1 implies (#[trigger] rest[k]).name != name by {
            assert(rest[k] == presets[k + 1]);
        }
        lemma_first_of(rest, name, i - 1);
    }
}

fn replace_filters(presets: &mut Vec<FilterPreset>, name: &str, filters: Vec<Filter>)
    ensures
        final(presets).deep_view() == with_filters(
            old(presets).deep_view(),
            name@,
            filters.deep_view(),
        ),
{
    let ghost all = presets.deep_view();
    let mut i: usize = 0;
    while i < presets.len()
        invariant
            i <= presets@.len(),
            *presets == *old(presets),
            all == presets.deep_view(),
            forall|k: int| 0 <= k < i ==> (#[trigger] all[k]).name != name@,
        decreases presets@.len() - i,
    {
        assert(all[i as int] == presets@[i as int].deep_view());
        if text::same(presets[i].name.as_str(), name) {
            proof {
                lemma_first_of(all, name@, i as int);
            }
            presets[i].filters = filters;
            assert(presets.deep_view() =~= with_filters(all, name@, filters.deep_view()));
            return;
        }
        i += 1;
    }
    proof {
        lemma_first_of(all, name@, i as int);
    }
}

/// The presets that have another name.
pub open spec fn without_named(presets: Seq<PresetView>, name: Seq<char>) -> Seq<PresetView> {
    presets.filter(|p: PresetView| p.name != name)
}

fn remove_named(presets: &Vec<FilterPreset>, name: &str) -> (r: Vec<FilterPreset>)
    ensures
        r.deep_view() == without_named(presets.deep_view(), name@),
{
    let ghost all = presets.deep_view();
    let mut r: Vec<FilterPreset> = Vec::new();
    proof {
        reveal(Seq::filter);
    }
    assert(r.deep_view() =~= without_named(all.take(0), name@));
    let mut i: usize = 0;
    while i < presets.len()
        invariant
            i <= presets@.len(),
            all == presets.deep_view(),
            r.deep_view() == without_named(all.take(i as int), name@),
        decreases presets@.len() - i,
    {
        let ghost before = r.deep_view();
        proof {
            reveal(Seq::filter);
            assert(all.take(i + 1).drop_last() == all.take(i as int));
            assert(all.take(i + 1).last() == presets@[i as int].deep_view());
        }
        if !text::same(presets[i].name.as_str(), name) {
            let p = presets[i].clone();
            r.push(p);
            assert(r.deep_view() =~= before.push(p.deep_view()));
        }
        i += 1;
    }
    assert(all.take(i as int) == all);
    r
}

/// The file at `source` can be written.
pub open spec fn is_at_hand(
    galleries: Seq<(Seq<char>, GalleryView)>,
    edited: nat,
    source: SourceView,
) -> bool {
    match source {
        SourceView::Collection(path) => is_loaded(galleries, path),
        SourceView::EditGallery(g) => g < edited,
    }
}

/// The presets of the file at `source`; none where it is not at hand.
pub open spec fn presets_in(a: GalerieApp, source: SourceView) -> Seq<PresetView> {
    match source {
        SourceView::Collection(path) => presets_at(a.cx.collection.galleries(), path),
        SourceView::EditGallery(g) => if g < a.edit_galleries@.len() {
            a.edit_galleries@[g as int].presets.deep_view()
        } else {
            Seq::empty()
        },
    }
}

/// In `b` the file at `source` has these presets; all else in the files is as in `a`. If the file is
/// at hand it is to be written: `save` is its source.
pub open spec fn keeps_presets(
    a: GalerieApp,
    b: GalerieApp,
    source: SourceView,
    presets: Seq<PresetView>,
    save: Option<SourceView>,
) -> bool {
    let gs = a.cx.collection.galleries();
    &&& save == if is_at_hand(gs, a.edit_galleries@.len(), source) {
        Some(source)
    } else {
        None
    }
    &&& b.cx.collection.entries == a.cx.collection.entries
    &&& match source {
        SourceView::Collection(path) => {
            &&& b.cx.collection.galleries() == with_gallery(
                gs,
                path,
                GalleryView { presets, ..gallery_at(gs, path) },
            )
            &&& b.edit_galleries == a.edit_galleries
        },
        SourceView::EditGallery(g) => {
            &&& b.cx.collection == a.cx.collection
            &&& b.edit_galleries@.len() == a.edit_galleries@.len()
            &&& forall|i: int|
                0 <= i < a.edit_galleries@.len() && i != g ==> #[trigger] b.edit_galleries@[i]
                    == a.edit_galleries@[i]
            &&& g < a.edit_galleries@.len() ==> {
                &&& b.edit_galleries@[g as int].presets.deep_view() == presets
                &&& b.edit_galleries@[g as int] == EditGallery {
                    presets: b.edit_galleries@[g as int].presets,
                    ..a.edit_galleries@[g as int]
                }
            }
        },
    }
}

/// `b` is `a` but for the presets, their files and the cache.
pub open spec fn same_but_presets(a: GalerieApp, b: GalerieApp) -> bool {
    &&& b.same_panels(
        GalerieApp { presets: b.presets, edit_galleries: b.edit_galleries, ..a },
    )
    &&& b.cx == ActionContext {
        collection: b.cx.collection,
        cache: b.cx.cache,
        ..a.cx
    }
}

/// The contents of an optional source.
pub open spec fn source_of(s: Option<PresetSource>) -> Option<SourceView> {
    match s {
        Some(x) => Some(x.deep_view()),
        None => None,
    }
}

fn copy_source(source: &PresetSource) -> (r: PresetSource)
    ensures
        r.deep_view() == source.deep_view(),
{
    match source {
        PresetSource::Collection(path) => PresetSource::Collection(path.clone()),
        PresetSource::EditGallery(g) => PresetSource::EditGallery(*g),
    }
}

impl GalerieApp {
    fn presets_from(&self, source: &PresetSource) -> (r: Vec<FilterPreset>)
        requires
            self.wf(),
        ensures
            r.deep_view() == presets_in(*self, source.deep_view()),
    {
        match source {
            PresetSource::Collection(path) => self.cx.collection.galerie_presets(path.as_str()),
            PresetSource::EditGallery(g) => {
                if *g < self.edit_galleries.len() {
                    crate::gallery::copy_presets(&self.edit_galleries[*g].presets)
                } else {
                    let none: Vec<FilterPreset> = Vec::new();
                    assert(none.deep_view() =~= Seq::empty());
                    none
                }
            },
        }
    }

    fn keep_presets(&mut self, source: PresetSource, presets: Vec<FilterPreset>) -> (save: Option<
        PresetSource,
    >)
        requires
            old(self).wf(),
        ensures
            final(self).wf(),
            keeps_presets(
                *old(self),
                *final(self),
                source.deep_view(),
                presets.deep_view(),
                source_of(save),
            ),
            same_but_presets(*old(self), *final(self)),
            final(self).presets == old(self).presets,
            final(self).cx.cache == old(self).cx.cache,
    {
        match source {
            PresetSource::Collection(path) => {
                if self.cx.collection.set_galerie_presets(path.as_str(), presets) {
                    Some(PresetSource::Collection(path))
                } else {
                    None
                }
            },
            PresetSource::EditGallery(g) => {
                if g < self.edit_galleries.len() {
                    self.edit_galleries[g].presets = presets;
                    Some(PresetSource::EditGallery(g))
                } else {
                    None
                }
            },
        }
    }

    /// Gives a preset other filters, also in its file, which is then to be written. What is at hand of
    /// the photos that use it is dropped.
    pub fn edit_preset(&mut self, index: usize, filters: Vec<Filter>) -> (save: Option<PresetSource>)
        requires
            old(self).wf(),
            index < old(self).presets@.len(),
        ensures
            final(self).wf(),
            ({
                let (preset, source) = old(self).presets.deep_view()[index as int];
                let new = filters.deep_view();
                &&& keeps_presets(
                    *old(self),
                    *final(self),
                    source,
                    with_filters(presets_in(*old(self), source), preset.name, new),
                    source_of(save),
                )
                &&& final(self).presets.deep_view() == old(self).presets.deep_view().update(
                    index as int,
                    (PresetView { filters: new, ..preset }, source),
                )
                &&& final(self).cx.cache@ == forgetting_users(
                    old(self).cx.cache@,
                    old(self).cx.collection.photos(),
                    preset.name,
                )
            }),
            same_but_presets(*old(self), *final(self)),
    {
        let ghost pool = self.presets.deep_view();
        assert(pool[index as int] == self.presets@[index as int].deep_view());
        let name = self.presets[index].preset.name.clone();
        let source = copy_source(&self.presets[index].source);
        let mut kept = self.presets_from(&source);
        replace_filters(&mut kept, name.as_str(), copy_stack(&filters));
        self.presets[index].preset.filters = filters;
        assert(self.presets.deep_view() =~= pool.update(
            index as int,
            (PresetView { filters: filters.deep_view(), ..pool[index as int].0 }, pool[index as
                int].1),
        ));
        let save = self.keep_presets(source, kept);
        assert(self.cx.collection.photos() == old(self).cx.collection.photos());
        self.invalidate_preset_dependents(name.as_str());
        save
    }
}

/// The filters of a stack that are no presets.
pub open spec fn physical(stack: Seq<FilterView>) -> Seq<FilterView> {
    stack.filter(|f: FilterView| !(f is Preset))
}

fn without_presets(stack: &Vec<Filter>) -> (r: Vec<Filter>)
    ensures
        r.deep_view() == physical(stack.deep_view()),
{
    let ghost all = stack.deep_view();
    let mut r: Vec<Filter> = Vec::new();
    proof {
        reveal(Seq::filter);
    }
    assert(r.deep_view() =~= physical(all.take(0)));
    let mut i: usize = 0;
    while i < stack.len()
        invariant
            i <= stack@.len(),
            all == stack.deep_view(),
            r.deep_view() == physical(all.take(i as int)),
        decreases stack@.len() - i,
    {
        let ghost before = r.deep_view();
        proof {
            reveal(Seq::filter);
            assert(all.take(i + 1).drop_last() == all.take(i as int));
            assert(all.take(i + 1).last() == stack@[i as int].deep_view());
        }
        if !matches!(&stack[i], Filter::Preset { .. }) {
            let f = stack[i].clone();
            r.push(f);
            assert(r.deep_view() =~= before.push(f.deep_view()));
        }
        i += 1;
    }
    assert(all.take(i as int) == all);
    r
}

/// Where a new preset goes: into the gallery file, if exactly one is open, or else into the first
/// edited gallery.
pub open spec fn preset_target(a: GalerieApp) -> Option<SourceView> {
    let gs = a.cx.collection.galleries();
    if gs.len() == 1 {
        Some(SourceView::Collection(gs[0].0))
    } else if a.edit_galleries@.len() > 0 {
        Some(SourceView::EditGallery(0))
    } else {
        None
    }
}

/// The presets at hand that have another name.
pub open spec fn pool_without(
    pool: Seq<(PresetView, SourceView)>,
    name: Seq<char>,
) -> Seq<(PresetView, SourceView)> {
    pool.filter(|p: (PresetView, SourceView)| p.0.name != name)
}

fn drop_named(pool: &mut Vec<PresetEntry>, name: &str)
    ensures
        final(pool).deep_view() == pool_without(old(pool).deep_view(), name@),
{
    let ghost all = pool.deep_view();
    let mut r: Vec<PresetEntry> = Vec::new();
    proof {
        reveal(Seq::filter);
    }
    assert(r.deep_view() =~= pool_without(all.take(0), name@));
    let mut i: usize = 0;
    while i < pool.len()
        invariant
            i <= pool@.len(),
            *pool == *old(pool),
            all == pool.deep_view(),
            r.deep_view() == pool_without(all.take(i as int), name@),
        decreases pool@.len() - i,
    {
        let ghost before = r.deep_view();
        proof {
            reveal(Seq::filter);
            assert(all.take(i + 1).drop_last() == all.take(i as int));
            assert(all.take(i + 1).last() == pool@[i as int].deep_view());
        }
        if !text::same(pool[i].preset.name.as_str(), name) {
            let e = PresetEntry {
                preset: pool[i].preset.clone(),
                source: copy_source(&pool[i].source),
            };
            r.push(e);
            assert(r.deep_view() =~= before.push(e.deep_view()));
        }
        i += 1;
    }
    assert(all.take(i as int) == all);
    *pool = r;
}

impl GalerieApp {
    /// Deletes a preset, also from its file, which is then to be written. What is at hand of the photos
    /// that use it is dropped.
    pub fn delete_preset(&mut self, index: usize) -> (save: Option<PresetSource>)
        requires
            old(self).wf(),
            index < old(self).presets@.len(),
        ensures
            final(self).wf(),
            ({
                let (preset, source) = old(self).presets.deep_view()[index as int];
                &&& keeps_presets(
                    *old(self),
                    *final(self),
                    source,
                    without_named(presets_in(*old(self), source), preset.name),
                    source_of(save),
                )
                &&& final(self).presets.deep_view() == old(self).presets.deep_view().remove(
                    index as int,
                )
                &&& final(self).cx.cache@ == forgetting_users(
                    old(self).cx.cache@,
                    old(self).cx.collection.photos(),
                    preset.name,
                )
            }),
            same_but_presets(*old(self), *final(self)),
    {
        let ghost pool = self.presets.deep_view();
        assert(pool[index as int] == self.presets@[index as int].deep_view());
        let entry = self.presets.remove(index);
        assert(self.presets.deep_view() =~= pool.remove(index as int));
        let name = entry.preset.name;
        let own = self.presets_from(&entry.source);
        let kept = remove_named(&own, name.as_str());
        let save = self.keep_presets(entry.source, kept);
        assert(self.cx.collection.photos() == old(self).cx.collection.photos());
        self.invalidate_preset_dependents(name.as_str());
        save
    }

    /// Says that a preset could not be kept.
    pub fn preset_save_failed(&mut self, error: &str, now: u64)
        requires
            old(self).wf(),
        ensures
            final(self).wf(),
            now_says(*old(self), *final(self), "Preset save error: "@ + error@, now),
    {
        let mut t = "Preset save error: ".to_owned();
        t.append(error);
        self.cx.overlay.push_toast(t, now);
    }

    /// Says that a preset could not be deleted from its file.
    pub fn preset_delete_failed(&mut self, error: &str, now: u64)
        requires
            old(self).wf(),
        ensures
            final(self).wf(),
            now_says(*old(self), *final(self), "Preset delete error: "@ + error@, now),
    {
        let mut t = "Preset delete error: ".to_owned();
        t.append(error);
        self.cx.overlay.push_toast(t, now);
    }

    /// Puts the filters of a stack, but for presets in it, as a preset of the name that was typed into a
    /// gallery file, where it replaces those of the same name. That file is then to be written, and
    /// `preset_stored` follows. Where there is no such file, says so.
    pub fn store_preset(&mut self, stack: &Vec<Filter>, now: u64) -> (save: Option<PresetSource>)
        requires
            old(self).wf(),
        ensures
            final(self).wf(),
            ({
                let name = old(self).preset_save_name@;
                match preset_target(*old(self)) {
                    _ if name.len() == 0 => save is None && *final(self) == *old(self),
                    None => save is None && now_says(
                        *old(self),
                        *final(self),
                        "No galerie file loaded — cannot save preset."@,
                        now,
                    ),
                    Some(source) => {
                        &&& keeps_presets(
                            *old(self),
                            *final(self),
                            source,
                            without_named(presets_in(*old(self), source), name).push(
                                PresetView { name, filters: physical(stack.deep_view()) },
                            ),
                            source_of(save),
                        )
                        &&& save is Some
                        &&& same_but_presets(*old(self), *final(self))
                        &&& final(self).presets == old(self).presets
                        &&& final(self).cx.cache == old(self).cx.cache
                    },
                }
            }),
    {
        if text::to_chars(self.preset_save_name.as_str()).len() == 0 {
            return None;
        }
        let name = self.preset_save_name.clone();
        let source = match self.cx.collection.single_galerie_path() {
            Some(path) => {
                proof {
                    lemma_gallery_at(self.cx.collection.galleries(), path@, 0);
                }
                PresetSource::Collection(path)
            },
            None => {
                if self.edit_galleries.len() == 0 {
                    self.cx.overlay.push_toast(
                        "No galerie file loaded — cannot save preset.".to_owned(),
                        now,
                    );
                    return None;
                }
                PresetSource::EditGallery(0)
            },
        };
        let own = self.presets_from(&source);
        let mut kept = remove_named(&own, name.as_str());
        let ghost before = kept.deep_view();
        let preset = FilterPreset { name, filters: without_presets(stack) };
        kept.push(preset);
        assert(kept.deep_view() =~= before.push(preset.deep_view()));
        self.keep_presets(source, kept)
    }

    /// Follows the writing of the file that a preset went into. Where that failed, says so. Otherwise the
    /// preset replaces those of the same name among the presets at hand, what is at hand of the photos
    /// that use it is dropped, and the typed name is cleared.
    pub fn preset_stored(
        &mut self,
        stack: &Vec<Filter>,
        source: PresetSource,
        error: Option<String>,
        now: u64,
    )
        requires
            old(self).wf(),
        ensures
            final(self).wf(),
            match error {
                Some(e) => now_says(*old(self), *final(self), "Preset save error: "@ + e@, now),
                None => {
                    let name = old(self).preset_save_name@;
                    &&& final(self).presets.deep_view() == pool_without(
                        old(self).presets.deep_view(),
                        name,
                    ).push(
                        (
                            PresetView { name, filters: physical(stack.deep_view()) },
                            source.deep_view(),
                        ),
                    )
                    &&& final(self).preset_save_name@.len() == 0
                    &&& final(self).cx.cache@ == forgetting_users(
                        old(self).cx.cache@,
                        old(self).cx.collection.photos(),
                        name,
                    )
                    &&& final(self).cx == (ActionContext {
                        cache: final(self).cx.cache,
                        ..old(self).cx
                    })
                    &&& final(self).same_panels(
                        GalerieApp {
                            presets: final(self).presets,
                            preset_save_name: final(self).preset_save_name,
                            ..*old(self)
                        },
                    )
                },
            },
    {
        match error {
            Some(e) => self.preset_save_failed(e.as_str(), now),
            None => {
                let name = self.preset_save_name.clone();
                drop_named(&mut self.presets, name.as_str());
                let ghost before = self.presets.deep_view();
                let e = PresetEntry {
                    preset: FilterPreset { name: name.clone(), filters: without_presets(stack) },
                    source,
                };
                self.presets.push(e);
                assert(self.presets.deep_view() =~= before.push(e.deep_view()));
                self.preset_save_name = String::new();
                self.invalidate_preset_dependents(name.as_str());
            },
        }
    }
}

} // verus!
