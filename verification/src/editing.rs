//! Changes of filters and annotations, as the panels make them.
use crate::actions::ActionContext;
use crate::app::{refiltered, GalerieApp};
use crate::collection::{fits_gallery, is_updated, lemma_gallery_at, PhotoCollection};
use crate::filters::{Filter, FilterView};
use crate::gallery::{
    text_of, Annotation, AnnotationView, DataView, GalleryView, PhotoData,
};
use crate::panels::now_says;
use crate::sidebar::{accordion_after_remove, stays_open};
use crate::text::{self, trimmed};
use std::collections::HashSet;
use vstd::prelude::*;

verus! {

broadcast use {
    vstd::string::group_string_axioms,
    vstd::std_specs::hash::group_hash_axioms,
};

/// The lists of filters in the sidebar.
#[derive(Debug, Clone, Copy, PartialEq, Eq, Structural)]
pub enum FilterList {
    Photo,
    /// Those that the gallery file puts before the filters of its photos.
    Before,
    /// Those that it puts after them.
    After,
}

impl GalerieApp {
    /// The rows of a list whose parameters are shown.
    pub open spec fn rows(self, list: FilterList) -> Set<usize> {
        match list {
            FilterList::Photo => self.filter_accordion_open@,
            FilterList::Before => self.gallery_pre_accordion_open@,
            FilterList::After => self.gallery_post_accordion_open@,
        }
    }
}

/// `b` is `a` but for the open rows of one list.
pub open spec fn same_but_rows(a: GalerieApp, b: GalerieApp, list: FilterList) -> bool {
    &&& b.cx == a.cx
    &&& b.same_panels(
        match list {
            FilterList::Photo => GalerieApp { filter_accordion_open: b.filter_accordion_open, ..a },
            FilterList::Before => GalerieApp {
                gallery_pre_accordion_open: b.gallery_pre_accordion_open,
                ..a
            },
            FilterList::After => GalerieApp {
                gallery_post_accordion_open: b.gallery_post_accordion_open,
                ..a
            },
        },
    )
}

/// The filter at `index` is gone from a list, and the others are there in order; each of their rows is open
/// exactly if it was before.
pub open spec fn filter_is_taken_out(
    was: Seq<FilterView>,
    is: Seq<FilterView>,
    open: Set<usize>,
    still_open: Set<usize>,
    index: usize,
) -> bool {
    &&& is.len() + 1 == was.len()
    &&& forall|row: usize|
        row < index ==> is[row as int] == was[row as int] && (#[trigger] still_open.contains(row)
            <==> open.contains(row))
    &&& forall|row: usize|
        index <= row < is.len() ==> is[row as int] == was[row + 1] && (#[trigger] still_open.contains(
            row,
        ) <==> open.contains((row + 1) as usize))
}

/// A filter stands at the end of a list and its row is open; the other filters and rows are as they were.
pub open spec fn filter_is_added(
    was: Seq<FilterView>,
    is: Seq<FilterView>,
    open: Set<usize>,
    now_open: Set<usize>,
    filter: FilterView,
) -> bool {
    &&& is.len() == was.len() + 1
    &&& is.last() == filter
    &&& forall|row: usize|
        row < was.len() ==> is[row as int] == was[row as int] && (#[trigger] now_open.contains(row)
            <==> open.contains(row))
    &&& now_open.contains(was.len() as usize)
}

impl GalerieApp {
    /// Shows the parameters of a row, or hides them.
    pub fn set_row_open(&mut self, list: FilterList, row: usize, open: bool)
        requires
            old(self).wf(),
        ensures
            final(self).wf(),
            same_but_rows(*old(self), *final(self), list),
            final(self).rows(list) == if open {
                old(self).rows(list).insert(row)
            } else {
                old(self).rows(list).remove(row)
            },
    {
        match list {
            FilterList::Photo => set_open(&mut self.filter_accordion_open, row, open),
            FilterList::Before => set_open(&mut self.gallery_pre_accordion_open, row, open),
            FilterList::After => set_open(&mut self.gallery_post_accordion_open, row, open),
        }
    }

    /// Takes a filter out of a list.
    pub fn remove_filter(&mut self, list: FilterList, stack: &mut Vec<Filter>, index: usize)
        requires
            old(self).wf(),
            index < old(stack)@.len(),
        ensures
            final(self).wf(),
            final(stack).deep_view() == old(stack).deep_view().remove(index as int),
            same_but_rows(*old(self), *final(self), list),
            forall|place: usize| #[trigger]
                final(self).rows(list).contains(place) <==> stays_open(
                    old(self).rows(list),
                    index,
                    place,
                ),
            filter_is_taken_out(
                old(stack).deep_view(),
                final(stack).deep_view(),
                old(self).rows(list),
                final(self).rows(list),
                index,
            ),
    {
        let ghost before = stack.deep_view();
        assert(before.len() == stack.len());
        let _ = stack.remove(index);
        assert(stack.deep_view() =~= before.remove(index as int));
        match list {
            FilterList::Photo => {
                self.filter_accordion_open =
                accordion_after_remove(&self.filter_accordion_open, index);
            },
            FilterList::Before => {
                self.gallery_pre_accordion_open =
                accordion_after_remove(&self.gallery_pre_accordion_open, index);
            },
            FilterList::After => {
                self.gallery_post_accordion_open =
                accordion_after_remove(&self.gallery_post_accordion_open, index);
            },
        }
    }

    /// Puts a filter at the end of a list, with its parameters shown.
    pub fn add_filter(&mut self, list: FilterList, stack: &mut Vec<Filter>, filter: Filter)
        requires
            old(self).wf(),
        ensures
            final(self).wf(),
            final(stack).deep_view() == old(stack).deep_view().push(filter.deep_view()),
            same_but_rows(*old(self), *final(self), list),
            final(self).rows(list) == old(self).rows(list).insert(old(stack)@.len() as usize),
            filter_is_added(
                old(stack).deep_view(),
                final(stack).deep_view(),
                old(self).rows(list),
                final(self).rows(list),
                filter.deep_view(),
            ),
    {
        let ghost before = stack.deep_view();
        let row = stack.len();
        stack.push(filter);
        assert(stack.deep_view() =~= before.push(filter.deep_view()));
        self.set_row_open(list, row, true);
    }
}

fn set_open(rows: &mut HashSet<usize>, row: usize, open: bool)
    ensures
        final(rows)@ == if open {
            old(rows)@.insert(row)
        } else {
            old(rows)@.remove(row)
        },
{
    if open {
        let _ = rows.insert(row);
    } else {
        let _ = rows.remove(&row);
    }
}

fn note_gallery_filters(collection: &mut PhotoCollection, pre: Vec<Filter>, post: Vec<Filter>) -> (save:
    Option<String>)
    requires
        old(collection).wf(),
    ensures
        final(collection).wf(),
        final(collection).entries == old(collection).entries,
        ({
            let gs = old(collection).galleries();
            if gs.len() == 1 {
                &&& text_of(save) == Some(gs[0].0)
                &&& final(collection).galleries() == seq![
                    (
                        gs[0].0,
                        GalleryView {
                            pre_filters: pre.deep_view(),
                            post_filters: post.deep_view(),
                            ..gs[0].1
                        },
                    ),
                ]
            } else {
                save is None && final(collection).galleries() == gs
            }
        }),
{
    let ghost gs = collection.galleries();
    match collection.single_galerie_path() {
        Some(path) => {
            proof {
                lemma_gallery_at(gs, path@, 0);
            }
            let ghost g = GalleryView {
                pre_filters: pre.deep_view(),
                post_filters: post.deep_view(),
                ..gs[0].1
            };
            let _ = collection.set_galerie_filters(path.as_str(), pre, post);
            assert(collection.galleries() =~= seq![(gs[0].0, g)]);
            Some(path)
        },
        None => None,
    }
}

/// `b` is `a` but for the collection.
pub open spec fn same_but_collection(a: GalerieApp, b: GalerieApp) -> bool {
    &&& b.same_panels(a)
    &&& b.cx == ActionContext { collection: b.cx.collection, ..a.cx }
}

/// `b` is `a` but for the cache, and says `text`, if there is one.
pub open spec fn same_but_cache(a: GalerieApp, b: GalerieApp, text: Option<Seq<char>>, now: u64) -> bool {
    &&& b.same_panels(a)
    &&& b.cx == ActionContext { cache: b.cx.cache, overlay: b.cx.overlay, ..a.cx }
    &&& match text {
        Some(t) => b.cx.overlay.says(a.cx.overlay, t, now),
        None => b.cx.overlay == a.cx.overlay,
    }
}

/// The text of an error behind `prefix`.
pub open spec fn error_text(prefix: Seq<char>, error: Option<String>) -> Option<Seq<char>> {
    match error {
        Some(e) => Some(prefix + e@),
        None => None,
    }
}

/// The only open gallery file puts these filters before and after those of its photos, and is to be
/// written; all else in it stays. Where there is not exactly one, nothing changes.
pub open spec fn gallery_filters_are_set(
    a: PhotoCollection,
    b: PhotoCollection,
    pre: Seq<FilterView>,
    post: Seq<FilterView>,
    save: Option<Seq<char>>,
) -> bool {
    let gs = a.galleries();
    let hs = b.galleries();
    &&& b.photos() == a.photos()
    &&& hs.len() == gs.len()
    &&& gs.len() == 1 ==> {
        &&& save == Some(gs[0].0)
        &&& hs[0].0 == gs[0].0
        &&& hs[0].1.pre_filters == pre
        &&& hs[0].1.post_filters == post
        &&& hs[0].1.name == gs[0].1.name
        &&& hs[0].1.photos == gs[0].1.photos
        &&& hs[0].1.background_color == gs[0].1.background_color
        &&& hs[0].1.presets == gs[0].1.presets
    }
    &&& gs.len() != 1 ==> save is None && hs == gs
}

impl GalerieApp {
    /// Sets the filters that the gallery file puts around those of its photos, if exactly one is open.
    /// Returns the path of that file, which is then to be written; `gallery_filters_settled` follows.
    pub fn set_gallery_filters(&mut self, pre: Vec<Filter>, post: Vec<Filter>) -> (save: Option<
        String,
    >)
        requires
            old(self).wf(),
        ensures
            final(self).wf(),
            same_but_collection(*old(self), *final(self)),
            final(self).cx.collection.entries == old(self).cx.collection.entries,
            ({
                let gs = old(self).cx.collection.galleries();
                if gs.len() == 1 {
                    &&& text_of(save) == Some(gs[0].0)
                    &&& final(self).cx.collection.galleries() == seq![
                        (
                            gs[0].0,
                            GalleryView {
                                pre_filters: pre.deep_view(),
                                post_filters: post.deep_view(),
                                ..gs[0].1
                            },
                        ),
                    ]
                } else {
                    save is None && final(self).cx.collection.galleries() == gs
                }
            }),
            gallery_filters_are_set(
                old(self).cx.collection,
                final(self).cx.collection,
                pre.deep_view(),
                post.deep_view(),
                text_of(save),
            ),
    {
        note_gallery_filters(&mut self.cx.collection, pre, post)
    }

    /// Follows a change of the filters of the gallery file: drops all images at hand, and says what failed.
    pub fn gallery_filters_settled(&mut self, error: Option<String>, now: u64)
        requires
            old(self).wf(),
        ensures
            final(self).wf(),
            same_but_cache(
                *old(self),
                *final(self),
                error_text("Gallery filter error: "@, error),
                now,
            ),
            final(self).cx.cache@ == old(self).cx.cache@.emptied(),
    {
        self.cx.cache.invalidate_all();
        if let Some(e) = error {
            let mut t = "Gallery filter error: ".to_owned();
            t.append(e.as_str());
            self.cx.overlay.push_toast(t, now);
        }
    }

    fn set_data(&mut self, index: usize, data: PhotoData, canon: &Vec<String>) -> (save: Option<
        String,
    >)
        requires
            old(self).wf(),
            index < old(self).cx.collection.photos().len(),
            fits_gallery(old(self).cx.collection, index as int, canon@.len()),
        ensures
            final(self).wf(),
            same_but_collection(*old(self), *final(self)),
            is_updated(
                old(self).cx.collection,
                final(self).cx.collection,
                index as int,
                data.deep_view(),
                canon.deep_view(),
                text_of(save),
            ),
    {
        self.cx.collection.update_data(index, data, canon)
    }

    /// Gives a photo other filters. Returns the path of its gallery file, which is then to be written;
    /// `photo_filters_settled` follows. `canon` holds the absolute paths of that file's photos.
    pub fn set_photo_filters(&mut self, index: usize, stack: Vec<Filter>, canon: &Vec<String>) -> (save:
        Option<String>)
        requires
            old(self).wf(),
            index < old(self).cx.collection.photos().len(),
            fits_gallery(old(self).cx.collection, index as int, canon@.len()),
        ensures
            final(self).wf(),
            same_but_collection(*old(self), *final(self)),
            is_updated(
                old(self).cx.collection,
                final(self).cx.collection,
                index as int,
                DataView {
                    filters: stack.deep_view(),
                    ..old(self).cx.collection.photos()[index as int].data
                },
                canon.deep_view(),
                text_of(save),
            ),
    {
        assert(self.cx.collection.photos()[index as int]
            == self.cx.collection.entries@[index as int].deep_view());
        let mut data = self.cx.collection.entries[index].data.clone();
        data.filters = stack;
        self.set_data(index, data, canon)
    }

    /// Puts a preset at the end of a photo's filters, as `set_photo_filters` does.
    pub fn insert_preset(&mut self, preset: usize, index: usize, canon: &Vec<String>) -> (save: Option<
        String,
    >)
        requires
            old(self).wf(),
            preset < old(self).presets@.len(),
            index < old(self).cx.collection.photos().len(),
            fits_gallery(old(self).cx.collection, index as int, canon@.len()),
        ensures
            final(self).wf(),
            same_but_collection(*old(self), *final(self)),
            ({
                let data = old(self).cx.collection.photos()[index as int].data;
                let name = old(self).presets@[preset as int].preset.name@;
                is_updated(
                    old(self).cx.collection,
                    final(self).cx.collection,
                    index as int,
                    DataView { filters: data.filters.push(FilterView::Preset { name }), ..data },
                    canon.deep_view(),
                    text_of(save),
                )
            }),
    {
        assert(self.cx.collection.photos()[index as int]
            == self.cx.collection.entries@[index as int].deep_view());
        let mut data = self.cx.collection.entries[index].data.clone();
        let ghost before = data.filters.deep_view();
        let f = Filter::Preset { name: self.presets[preset].preset.name.clone() };
        data.filters.push(f);
        assert(data.filters.deep_view() =~= before.push(f.deep_view()));
        self.set_data(index, data, canon)
    }

    /// Follows a change of a photo's filters: drops what is at hand of the photo, and says what failed.
    pub fn photo_filters_settled(&mut self, index: usize, error: Option<String>, now: u64)
        requires
            old(self).wf(),
        ensures
            final(self).wf(),
            same_but_cache(*old(self), *final(self), error_text("Filter error: "@, error), now),
            final(self).cx.cache@ == old(self).cx.cache@.forgetting(index),
    {
        self.cx.cache.invalidate(index);
        if let Some(e) = error {
            let mut t = "Filter error: ".to_owned();
            t.append(e.as_str());
            self.cx.overlay.push_toast(t, now);
        }
    }
}

/// Annotations, one of them taken out, and then a note put at the end.
pub open spec fn reannotated(
    annotations: Seq<AnnotationView>,
    remove: Option<usize>,
    add: Option<Seq<char>>,
) -> Seq<AnnotationView> {
    let kept = match remove {
        Some(i) => annotations.remove(i as int),
        None => annotations,
    };
    match add {
        Some(text) => kept.push(AnnotationView::Note { text }),
        None => kept,
    }
}

impl GalerieApp {
    /// The note that was typed, without white space around it; `None` where nothing else was typed.
    /// Clears the input.
    pub fn submit_annotation(&mut self) -> (note: Option<String>)
        requires
            old(self).wf(),
        ensures
            final(self).wf(),
            ({
                let typed = trimmed(old(self).annotation_input@);
                if typed.len() == 0 {
                    note is None && *final(self) == *old(self)
                } else {
                    &&& text_of(note) == Some(typed)
                    &&& final(self).annotation_input@.len() == 0
                    &&& final(self).cx == old(self).cx
                    &&& final(self).same_panels(
                        GalerieApp { annotation_input: final(self).annotation_input, ..*old(self) },
                    )
                }
            }),
    {
        let typed = text::trim(self.annotation_input.as_str());
        if text::to_chars(typed.as_str()).len() == 0 {
            return None;
        }
        self.annotation_input = String::new();
        Some(typed)
    }

    /// Takes an annotation from a photo, or gives it a note, or both. Returns the path of its gallery
    /// file, which is then to be written; `annotations_settled` follows. `canon` holds the absolute
    /// paths of that file's photos.
    pub fn annotate(
        &mut self,
        index: usize,
        remove: Option<usize>,
        add: Option<String>,
        canon: &Vec<String>,
    ) -> (save: Option<String>)
        requires
            old(self).wf(),
            index < old(self).cx.collection.photos().len(),
            fits_gallery(old(self).cx.collection, index as int, canon@.len()),
            remove matches Some(i) ==> i < old(self).cx.collection.photos()[index as
                int].data.annotations.len(),
        ensures
            final(self).wf(),
            same_but_collection(*old(self), *final(self)),
            ({
                let data = old(self).cx.collection.photos()[index as int].data;
                is_updated(
                    old(self).cx.collection,
                    final(self).cx.collection,
                    index as int,
                    DataView {
                        annotations: reannotated(data.annotations, remove, text_of(add)),
                        ..data
                    },
                    canon.deep_view(),
                    text_of(save),
                )
            }),
    {
        assert(self.cx.collection.photos()[index as int]
            == self.cx.collection.entries@[index as int].deep_view());
        let mut data = self.cx.collection.entries[index].data.clone();
        let ghost before = data.annotations.deep_view();
        if let Some(i) = remove {
            let _ = data.annotations.remove(i);
            assert(data.annotations.deep_view() =~= before.remove(i as int));
        }
        let ghost kept = data.annotations.deep_view();
        if let Some(text) = add {
            data.annotations.push(Annotation::Note { text });
            assert(data.annotations.deep_view() =~= kept.push(
                AnnotationView::Note { text: text@ },
            ));
        }
        self.set_data(index, data, canon)
    }

    /// Follows a change of annotations: says what failed, or, where a search is on, finds anew.
    pub fn annotations_settled(&mut self, error: Option<String>, now: u64)
        requires
            old(self).wf(),
        ensures
            final(self).wf(),
            match error {
                Some(e) => now_says(*old(self), *final(self), "Annotation error: "@ + e@, now),
                None => if old(self).search_query@.len() > 0 {
                    &&& final(self).same_panels(*old(self))
                    &&& refiltered(old(self).cx, final(self).cx, old(self).search_query@)
                } else {
                    *final(self) == *old(self)
                },
            },
    {
        match error {
            Some(e) => {
                let mut t = "Annotation error: ".to_owned();
                t.append(e.as_str());
                self.cx.overlay.push_toast(t, now);
            },
            None => {
                if text::to_chars(self.search_query.as_str()).len() > 0 {
                    self.update_filter();
                }
            },
        }
    }
}

} // verus!
