//! What the panels and the clock do to the application.
use crate::actions::{only_says, ActionContext, AppState};
use crate::app::{refiltered, GalerieApp, SimilarState};
use crate::collection::{lemma_gallery_at, PhotoCollection};
use crate::gallery::{text_of, BackgroundColor, GalleryView};
use crate::scalar::Scalar;
use crate::search::{is_ranking, is_scored, rank, Scored};
use crate::text::{self, decimal_text};
use crate::viewer::{is_grid_dimension, Direction, Pan, SingleState, ViewerState};
use vstd::prelude::*;

verus! {

broadcast use vstd::string::group_string_axioms;

/// What the clock does to a slideshow.
#[derive(Debug, Clone, Copy, PartialEq, Eq, Structural)]
pub enum Tick {
    Off,
    /// The next photo is shown.
    Moved,
    /// The next photo is due in so many nanoseconds.
    Wait(u64),
}

/// How long ago the slideshow moved on. A clock that has gone back counts as one that has stood still.
pub open spec fn shown_for(state: AppState, now: u64) -> int {
    if now < state.slideshow_last_at {
        0
    } else {
        now - state.slideshow_last_at
    }
}

/// `b` is `a`, but says `text`.
pub open spec fn now_says(a: GalerieApp, b: GalerieApp, text: Seq<char>, now: u64) -> bool {
    &&& b.same_panels(a)
    &&& only_says(a.cx, b.cx, text, now)
}

/// Sets the background of the gallery file, if exactly one is open. Returns its path.
fn note_background(collection: &mut PhotoCollection, color: BackgroundColor) -> (save: Option<String>)
    requires
        old(collection).wf(),
    ensures
        final(collection).wf(),
        final(collection).entries == old(collection).entries,
        ({
            let gs = old(collection).galleries();
            if gs.len() == 1 {
                &&& text_of(save) == Some(gs[0].0)
                &&& final(collection).galleries() == seq![
                    (gs[0].0, GalleryView { background_color: Some(color), ..gs[0].1 }),
                ]
            } else {
                save is None && final(collection).galleries() == gs
            }
        }),
{
    let ghost gs = collection.galleries();
    match collection.single_galerie_path() {
        Some(path) => {
            proof {
                lemma_gallery_at(gs, path@, 0);
            }
            let _ = collection.set_galerie_background(path.as_str(), color);
            assert(collection.galleries() =~= seq![
                (gs[0].0, GalleryView { background_color: Some(color), ..gs[0].1 }),
            ]);
            Some(path)
        },
        None => None,
    }
}

/// A slideshow that was last moved at least `interval` ago moves to the next photo, around all that are
/// shown, and its clock starts anew. One that was not waits for the rest of the interval.
pub open spec fn slideshow_ticks(
    a: ActionContext,
    b: ActionContext,
    now: u64,
    interval: u64,
    t: Tick,
) -> bool {
    let total = a.display@.len() as int;
    let due = a.app_state.slideshow_last_at + interval;
    &&& t is Off <==> !a.app_state.slideshow_active
    &&& t is Moved <==> a.app_state.slideshow_active && (now >= due || interval == 0)
    &&& t matches Tick::Wait(rest) ==> 0 < rest && (now >= a.app_state.slideshow_last_at ==> now + rest
        == due)
    &&& t is Moved && total > 0 ==> b.viewer.focus() == if a.viewer.focus() + 1 < total {
        a.viewer.focus() + 1
    } else {
        0
    }
    &&& t is Moved ==> b.app_state.slideshow_last_at == now
    &&& !(t is Moved) ==> b == a
    &&& b.app_state.slideshow_active == a.app_state.slideshow_active
    &&& b.display == a.display
    &&& b.collection == a.collection
}

/// The photo in focus has gone into an edited gallery or out of it, which `added` tells; no other
/// photo has. The other galleries are as they were.
pub open spec fn membership_flips(a: GalerieApp, b: GalerieApp, gallery: int, added: bool) -> bool {
    let photo = a.cx.collection.photos()[a.cx.display@[a.cx.viewer.focus()] as int];
    let was = a.edit_galleries@[gallery];
    let is = b.edit_galleries@[gallery];
    &&& b.cx == a.cx
    &&& b.edit_galleries@.len() == a.edit_galleries@.len()
    &&& is.members().contains(photo.path) == added
    &&& was.members().contains(photo.path) == !added
    &&& forall|path: Seq<char>|
        path != photo.path ==> #[trigger] is.members().contains(path) == was.members().contains(path)
    &&& added ==> is.photos().len() == was.photos().len() + 1 && is.photos().last().path
        == photo.path && is.photos().last().hash == photo.hash
    &&& !added ==> forall|i: int|
        0 <= i < is.photos().len() ==> (#[trigger] is.photos()[i]).path != photo.path
    &&& forall|i: int|
        0 <= i < a.edit_galleries@.len() && i != gallery ==> #[trigger] b.edit_galleries@[i]
            == a.edit_galleries@[i]
}

/// The background has gone from black to gray, from gray to white or from white to black. Where exactly one
/// gallery file is open, it holds the new background and is to be written; all else in it stays.
pub open spec fn background_advances(
    a: ActionContext,
    b: ActionContext,
    save: Option<Seq<char>>,
) -> bool {
    let color = b.app_state.background_color;
    let gs = a.collection.galleries();
    let hs = b.collection.galleries();
    &&& a.app_state.background_color is Black ==> color is Gray
    &&& a.app_state.background_color is Gray ==> color is White
    &&& a.app_state.background_color is White ==> color is Black
    &&& hs.len() == gs.len()
    &&& gs.len() == 1 ==> {
        &&& save == Some(gs[0].0)
        &&& hs[0].0 == gs[0].0
        &&& hs[0].1.background_color == Some(color)
        &&& hs[0].1.name == gs[0].1.name
        &&& hs[0].1.photos == gs[0].1.photos
        &&& hs[0].1.pre_filters == gs[0].1.pre_filters
        &&& hs[0].1.post_filters == gs[0].1.post_filters
        &&& hs[0].1.presets == gs[0].1.presets
    }
    &&& gs.len() != 1 ==> save is None && hs == gs
    &&& b.collection.entries == a.collection.entries
}

/// The search that is remembered asks for `count` photos, and for the distance `threshold` if it
/// asked for one before; it is still for the same photo, under the same name.
pub open spec fn similar_is_changed(
    was: Option<SimilarState>,
    is: Option<SimilarState>,
    count: usize,
    threshold: Option<Scalar>,
) -> bool {
    &&& was is None <==> is is None
    &&& was is Some ==> {
        &&& is->0.count == count
        &&& is->0.namespace == was->0.namespace
        &&& is->0.query_ci == was->0.query_ci
        &&& is->0.panel_open == was->0.panel_open
        &&& was->0.threshold is Some && threshold is Some ==> is->0.threshold == threshold
        &&& was->0.threshold is None || threshold is None ==> is->0.threshold == was->0.threshold
    }
}

/// A photo that is shown alone has the zoom `scale` and lies in the middle, if its own size was
/// asked for, which is then done. Else nothing changes.
pub open spec fn own_size_is_shown(a: ActionContext, b: ActionContext, scale: Scalar) -> bool {
    &&& !b.app_state.zoom_to_one_pending
    &&& !a.app_state.zoom_to_one_pending ==> b == a
    &&& a.viewer is Tiling ==> b.viewer == a.viewer
    &&& a.viewer is Single ==> b.viewer is Single && b.viewer.focus() == a.viewer.focus()
    &&& a.viewer is Single && a.app_state.zoom_to_one_pending ==> {
        &&& b.viewer->Single_0.zoom == scale
        &&& b.viewer->Single_0.pan.x.bits == 0
        &&& b.viewer->Single_0.pan.y.bits == 0
    }
    &&& b.collection == a.collection
    &&& b.display == a.display
}

impl GalerieApp {
    /// Moves a slideshow on when the time has come.
    pub fn tick_slideshow(&mut self, now: u64, interval: u64) -> (t: Tick)
        requires
            old(self).wf(),
        ensures
            final(self).wf(),
            final(self).same_panels(*old(self)),
            ({
                let a = old(self).cx;
                let b = final(self).cx;
                if !a.app_state.slideshow_active {
                    t is Off && b == a
                } else if shown_for(a.app_state, now) >= interval {
                    &&& t is Moved
                    &&& b == ActionContext {
                        viewer: a.viewer.navigated(Direction::Next, 1, a.display@.len() as int),
                        app_state: AppState { slideshow_last_at: now, ..a.app_state },
                        ..a
                    }
                } else {
                    &&& t == Tick::Wait((interval - shown_for(a.app_state, now)) as u64)
                    &&& b == a
                }
            }),
            slideshow_ticks(old(self).cx, final(self).cx, now, interval, t),
    {
        if !self.cx.app_state.slideshow_active {
            return Tick::Off;
        }
        let last = self.cx.app_state.slideshow_last_at;
        let elapsed = if now < last {
            0
        } else {
            now - last
        };
        if elapsed >= interval {
            let total = self.cx.display.len();
            proof {
                assert(total <= usize::MAX);
                if total > 0 {
                    vstd::arithmetic::div_mod::lemma_mod_decreases(1, total as nat);
                }
            }
            self.cx.viewer.navigate(Direction::Next, 1, total);
            self.cx.app_state.slideshow_last_at = now;
            proof {
                if total > 0 {
                    let at = old(self).cx.viewer.focus();
                    if at + 1 < total {
                        vstd::arithmetic::div_mod::lemma_small_mod((at + 1) as nat, total as nat);
                    } else {
                        vstd::arithmetic::div_mod::lemma_mod_self_0(total as int);
                    }
                }
            }
            Tick::Moved
        } else {
            Tick::Wait(interval - elapsed)
        }
    }

    /// Takes the photo in focus into an edited gallery, or out of it. Says whether it went in.
    pub fn toggle_membership(&mut self, gallery: usize) -> (added: bool)
        requires
            old(self).wf(),
            old(self).cx.display@.len() > 0,
            gallery < old(self).edit_galleries@.len(),
        ensures
            final(self).wf(),
            ({
                let photo = old(self).cx.collection.photos()[old(self).cx.focused()];
                let before = old(self).edit_galleries@[gallery as int];
                let after = final(self).edit_galleries@[gallery as int];
                &&& added == !before.members().contains(photo.path)
                &&& after.members() == crate::gallery::toggled_members(
                    before.members(),
                    photo.path,
                )
                &&& after.photos() == crate::gallery::toggled_photos(
                    before.photos(),
                    before.members(),
                    photo.path,
                    photo.hash,
                )
                &&& after.path == before.path
                &&& after.name == before.name
                &&& after.background_color == before.background_color
                &&& after.presets == before.presets
            }),
            final(self).edit_galleries@ == old(self).edit_galleries@.update(
                gallery as int,
                final(self).edit_galleries@[gallery as int],
            ),
            final(self).cx == old(self).cx,
            final(self).same_panels(
                GalerieApp { edit_galleries: final(self).edit_galleries, ..*old(self) },
            ),
            membership_flips(*old(self), *final(self), gallery as int, added),
    {
        let index = self.cx.focused_photo();
        assert(self.cx.collection.photos()[index as int]
            == self.cx.collection.entries@[index as int].deep_view());
        let path = self.cx.collection.entries[index].path.clone();
        let hash = self.cx.collection.entries[index].hash.clone();
        let added = self.edit_galleries[gallery].toggle(path.as_str(), hash.as_str());
        proof {
            let was = old(self).edit_galleries@[gallery as int];
            crate::laws::searching::lemma_picked(
                was.photos(),
                |e: crate::gallery::GalleryEntryView| e.path != path@,
            );
        }
        added
    }

    /// Follows the writing of an edited gallery: says what failed, or, where that is announced,
    /// whether the photo went in or out.
    pub fn membership_settled(
        &mut self,
        gallery: usize,
        added: bool,
        announce: bool,
        error: Option<String>,
        now: u64,
    )
        requires
            old(self).wf(),
            gallery < old(self).edit_galleries@.len(),
        ensures
            final(self).wf(),
            match error {
                Some(e) => now_says(*old(self), *final(self), "Save error: "@ + e@, now),
                None => if announce {
                    now_says(
                        *old(self),
                        *final(self),
                        if added {
                            "Added to "@
                        } else {
                            "Removed from "@
                        } + old(self).edit_galleries@[gallery as int].name@,
                        now,
                    )
                } else {
                    *final(self) == *old(self)
                },
            },
    {
        match error {
            Some(e) => {
                let mut t = "Save error: ".to_owned();
                t.append(e.as_str());
                self.cx.overlay.push_toast(t, now);
            },
            None => {
                if announce {
                    let mut t = if added {
                        "Added to ".to_owned()
                    } else {
                        "Removed from ".to_owned()
                    };
                    t.append(self.edit_galleries[gallery].name.as_str());
                    self.cx.overlay.push_toast(t, now);
                }
            },
        }
    }

    /// Changes to the next background, also in the gallery file, if exactly one is open. Returns the
    /// path of that file, which is then to be written; `background_settled` follows.
    pub fn cycle_background(&mut self) -> (save: Option<String>)
        requires
            old(self).wf(),
        ensures
            final(self).wf(),
            final(self).same_panels(*old(self)),
            ({
                let a = old(self).cx;
                let b = final(self).cx;
                let color = a.app_state.background_color.next();
                let gs = a.collection.galleries();
                &&& b.app_state == AppState { background_color: color, ..a.app_state }
                &&& b.viewer == a.viewer
                &&& b.cache == a.cache
                &&& b.overlay == a.overlay
                &&& b.tile_count == a.tile_count
                &&& b.display == a.display
                &&& b.collection.entries == a.collection.entries
                &&& if gs.len() == 1 {
                    &&& text_of(save) == Some(gs[0].0)
                    &&& b.collection.galleries() == seq![
                        (gs[0].0, GalleryView { background_color: Some(color), ..gs[0].1 }),
                    ]
                } else {
                    save is None && b.collection.galleries() == gs
                }
            }),
            background_advances(old(self).cx, final(self).cx, text_of(save)),
    {
        let color = self.cx.app_state.background_color.cycle();
        self.cx.app_state.background_color = color;
        note_background(&mut self.cx.collection, color)
    }

    /// Follows a change of the background: says what failed, or passes the colour on to the edited
    /// galleries in the same file, for which `same` says so, and names it.
    pub fn background_settled(&mut self, error: Option<String>, same: &Vec<bool>, now: u64)
        requires
            old(self).wf(),
            same@.len() == old(self).edit_galleries@.len(),
        ensures
            final(self).wf(),
            match error {
                Some(e) => now_says(*old(self), *final(self), "Background save error: "@ + e@, now),
                None => {
                    let color = old(self).cx.app_state.background_color;
                    &&& only_says(
                        old(self).cx,
                        final(self).cx,
                        "Background: "@ + color.name(),
                        now,
                    )
                    &&& final(self).same_panels(
                        GalerieApp { edit_galleries: final(self).edit_galleries, ..*old(self) },
                    )
                    &&& final(self).edit_galleries@.len() == old(self).edit_galleries@.len()
                    &&& forall|i: int|
                        0 <= i < same@.len() ==> #[trigger] final(self).edit_galleries@[i]
                            == if same@[i] {
                            crate::gallery::EditGallery {
                                background_color: Some(color),
                                ..old(self).edit_galleries@[i]
                            }
                        } else {
                            old(self).edit_galleries@[i]
                        }
                },
            },
    {
        match error {
            Some(e) => {
                let mut t = "Background save error: ".to_owned();
                t.append(e.as_str());
                self.cx.overlay.push_toast(t, now);
            },
            None => {
                let color = self.cx.app_state.background_color;
                let ghost first = self.edit_galleries@;
                let mut i: usize = 0;
                while i < self.edit_galleries.len()
                    invariant
                        i <= self.edit_galleries@.len(),
                        self.edit_galleries@.len() == first.len(),
                        same@.len() == first.len(),
                        self.wf(),
                        self.cx == old(self).cx,
                        self.same_panels(
                            GalerieApp { edit_galleries: self.edit_galleries, ..*old(self) },
                        ),
                        forall|k: int|
                            0 <= k < first.len() ==> #[trigger] self.edit_galleries@[k] == if k < i
                                && same@[k] {
                                crate::gallery::EditGallery {
                                    background_color: Some(color),
                                    ..first[k]
                                }
                            } else {
                                first[k]
                            },
                    decreases self.edit_galleries@.len() - i,
                {
                    if same[i] {
                        self.edit_galleries[i].background_color = Some(color);
                    }
                    i += 1;
                }
                let mut t = "Background: ".to_owned();
                t.append(color.label());
                self.cx.overlay.push_toast(t, now);
            },
        }
    }
}

/// The texts that tell of a search for similar photos. `quoted` is the namespace in quotes.
pub open spec fn similar_text(n: nat, kind: Seq<char>, quoted: Seq<char>) -> Seq<char> {
    "Showing "@ + decimal_text(n) + kind + " (namespace: "@ + quoted + ")"@
}

/// `b` is `a` with these photos shown in a new grid, and says `text`.
pub open spec fn shows_instead(
    a: GalerieApp,
    b: GalerieApp,
    display: Seq<usize>,
    text: Seq<char>,
    now: u64,
) -> bool {
    &&& b.same_panels(a)
    &&& b.cx.display@ == display
    &&& b.cx.viewer matches ViewerState::Tiling(s) && s.page == 0 && s.selected == 0
        && is_grid_dimension(s.cols as int, a.cx.tile_count as int)
    &&& b.cx.collection == a.cx.collection
    &&& b.cx.cache == a.cx.cache
    &&& b.cx.app_state == a.cx.app_state
    &&& b.cx.tile_count == a.cx.tile_count
    &&& b.cx.overlay.says(a.cx.overlay, text, now)
}

impl GalerieApp {
    /// The photo whose like is sought, if any is shown.
    pub fn similar_query(&self) -> (r: Option<usize>)
        requires
            self.wf(),
        ensures
            r == if self.cx.display@.len() == 0 {
                None
            } else {
                Some(self.cx.focused() as usize)
            },
            r matches Some(i) ==> i < self.cx.collection.photos().len(),
    {
        if self.cx.display.len() == 0 {
            None
        } else {
            Some(self.cx.focused_photo())
        }
    }

    /// Says that the photo has no vector.
    pub fn no_embedding(&mut self, quoted: &str, now: u64)
        requires
            old(self).wf(),
        ensures
            final(self).wf(),
            now_says(
                *old(self),
                *final(self),
                "No embedding (namespace: "@ + quoted@ + ") for this photo"@,
                now,
            ),
    {
        let mut t = "No embedding (namespace: ".to_owned();
        t.append(quoted);
        t.append(") for this photo");
        self.cx.overlay.push_toast(t, now);
    }

    fn no_embeddings(&mut self, quoted: &str, now: u64)
        requires
            old(self).wf(),
        ensures
            final(self).wf(),
            now_says(
                *old(self),
                *final(self),
                "No photos with embeddings (namespace: "@ + quoted@ + ")"@,
                now,
            ),
    {
        let mut t = "No photos with embeddings (namespace: ".to_owned();
        t.append(quoted);
        t.append(")");
        self.cx.overlay.push_toast(t, now);
    }

    fn show_instead(&mut self, display: Vec<usize>, text: String, now: u64)
        requires
            old(self).wf(),
            forall|i: int|
                0 <= i < display@.len() ==> #[trigger] display@[i] < old(
                    self,
                ).cx.collection.photos().len(),
        ensures
            final(self).wf(),
            shows_instead(*old(self), *final(self), display@, text@, now),
    {
        let viewer = ViewerState::new_tiling(self.cx.tile_count);
        proof {
            let s = viewer->Tiling_0;
            crate::viewer::lemma_has_room(s.cols as int, self.cx.tile_count as int);
            assert(s.focus() == 0);
        }
        self.cx.display = display;
        self.cx.viewer = viewer;
        self.cx.overlay.push_toast(text, now);
    }

    /// Shows the photos that are most alike, given the likeness of each.
    pub fn show_ranked(&mut self, scored: &Vec<Scored>, count: usize, quoted: &str, now: u64)
        requires
            old(self).wf(),
            forall|i: int|
                0 <= i < scored@.len() ==> (#[trigger] scored@[i]).index < old(
                    self,
                ).cx.collection.photos().len(),
        ensures
            final(self).wf(),
            scored@.len() == 0 ==> now_says(
                *old(self),
                *final(self),
                "No photos with embeddings (namespace: "@ + quoted@ + ")"@,
                now,
            ),
            scored@.len() > 0 ==> is_ranking(final(self).cx.display@, scored@, count as nat)
                && shows_instead(
                *old(self),
                *final(self),
                final(self).cx.display@,
                similar_text(final(self).cx.display@.len(), " most similar"@, quoted@),
                now,
            ),
    {
        if scored.len() == 0 {
            self.no_embeddings(quoted, now);
            return;
        }
        let display = rank(scored, count);
        let mut t = "Showing ".to_owned();
        t.append(text::decimal(display.len() as u64).as_str());
        t.append(" most similar");
        t.append(" (namespace: ");
        t.append(quoted);
        t.append(")");
        assert forall|i: int| 0 <= i < display@.len() implies #[trigger] display@[i]
            < self.cx.collection.photos().len() by {
            assert(is_scored(display@[i], scored@));
            let k = choose|k: int| 0 <= k < scored@.len() && (#[trigger] scored@[k]).index
                == display@[i];
            assert(scored@[k].index < self.cx.collection.photos().len());
        }
        self.show_instead(display, t, now);
    }

    /// Shows photos that were taken as alike, but not too alike among each other. `any` says whether
    /// there were photos to choose from.
    pub fn show_diverse(&mut self, taken: Vec<usize>, any: bool, quoted: &str, now: u64)
        requires
            old(self).wf(),
            forall|i: int|
                0 <= i < taken@.len() ==> #[trigger] taken@[i] < old(
                    self,
                ).cx.collection.photos().len(),
        ensures
            final(self).wf(),
            if !any {
                now_says(
                    *old(self),
                    *final(self),
                    "No photos with embeddings (namespace: "@ + quoted@ + ")"@,
                    now,
                )
            } else if taken@.len() == 0 {
                now_says(
                    *old(self),
                    *final(self),
                    "No diverse photos found (threshold may be too high)"@,
                    now,
                )
            } else {
                shows_instead(
                    *old(self),
                    *final(self),
                    taken@,
                    similar_text(taken@.len(), " diverse similar"@, quoted@),
                    now,
                )
            },
    {
        if !any {
            self.no_embeddings(quoted, now);
            return;
        }
        if taken.len() == 0 {
            self.cx.overlay.push_toast(
                "No diverse photos found (threshold may be too high)".to_owned(),
                now,
            );
            return;
        }
        let mut t = "Showing ".to_owned();
        t.append(text::decimal(taken.len() as u64).as_str());
        t.append(" diverse similar");
        t.append(" (namespace: ");
        t.append(quoted);
        t.append(")");
        self.show_instead(taken, t, now);
    }

    /// Remembers the search, so that it can be changed, if any photo is shown.
    pub fn note_similar(
        &mut self,
        namespace: String,
        count: usize,
        threshold: Option<Scalar>,
        query_ci: usize,
    )
        requires
            old(self).wf(),
        ensures
            final(self).wf(),
            *final(self) == (GalerieApp {
                similar_state: if old(self).cx.display@.len() > 0 {
                    Some(
                        SimilarState { namespace, count, threshold, query_ci, panel_open: false },
                    )
                } else {
                    old(self).similar_state
                },
                ..*old(self)
            }),
    {
        if self.cx.display.len() > 0 {
            self.similar_state =
            Some(SimilarState { namespace, count, threshold, query_ci, panel_open: false });
        }
    }

    /// Changes the search that is remembered. One that asks for no distance keeps doing so.
    pub fn set_similar(&mut self, count: usize, threshold: Option<Scalar>)
        requires
            old(self).wf(),
        ensures
            final(self).wf(),
            final(self).cx == old(self).cx,
            final(self).same_panels(
                GalerieApp { similar_state: final(self).similar_state, ..*old(self) },
            ),
            match old(self).similar_state {
                None => final(self).similar_state is None,
                Some(s) => final(self).similar_state == Some(
                    SimilarState {
                        count,
                        threshold: if s.threshold is Some && threshold is Some {
                            threshold
                        } else {
                            s.threshold
                        },
                        ..s
                    },
                ),
            },
            similar_is_changed(
                old(self).similar_state,
                final(self).similar_state,
                count,
                threshold,
            ),
    {
        match &mut self.similar_state {
            Some(s) => {
                s.count = count;
                if s.threshold.is_some() && threshold.is_some() {
                    s.threshold = threshold;
                }
            },
            None => {},
        }
    }

    /// Shows the parameters of the search, or hides them.
    pub fn toggle_similar_panel(&mut self)
        requires
            old(self).wf(),
        ensures
            final(self).wf(),
            final(self).cx == old(self).cx,
            final(self).same_panels(
                GalerieApp { similar_state: final(self).similar_state, ..*old(self) },
            ),
            match old(self).similar_state {
                None => final(self).similar_state is None,
                Some(s) => final(self).similar_state == Some(
                    SimilarState { panel_open: !s.panel_open, ..s },
                ),
            },
    {
        match &mut self.similar_state {
            Some(s) => {
                s.panel_open = !s.panel_open;
            },
            None => {},
        }
    }
}

impl GalerieApp {
    /// Shows the photo of a tile alone.
    pub fn open_tile(&mut self, index: usize)
        requires
            old(self).wf(),
            index < old(self).cx.display@.len(),
        ensures
            final(self).wf(),
            final(self).same_panels(*old(self)),
            final(self).cx == (ActionContext {
                viewer: ViewerState::Single(SingleState::fitted_spec(index)),
                ..old(self).cx
            }),
    {
        self.cx.viewer.switch_to_single(index);
    }

    /// Moves a photo that is shown alone to `pan`.
    pub fn pan_to(&mut self, pan: Pan)
        requires
            old(self).wf(),
        ensures
            final(self).wf(),
            final(self).same_panels(*old(self)),
            final(self).cx == (ActionContext {
                viewer: match old(self).cx.viewer {
                    ViewerState::Single(s) => ViewerState::Single(SingleState { pan, ..s }),
                    v => v,
                },
                ..old(self).cx
            }),
    {
        if let ViewerState::Single(s) = self.cx.viewer {
            self.cx.viewer = ViewerState::Single(SingleState { pan, ..s });
        }
    }

    /// Gives a photo that is shown alone its own size, if that was asked for. `scale` is the zoom at
    /// which it has it.
    pub fn zoom_to_one(&mut self, scale: Scalar)
        requires
            old(self).wf(),
        ensures
            final(self).wf(),
            final(self).same_panels(*old(self)),
            final(self).cx == if old(self).cx.app_state.zoom_to_one_pending {
                ActionContext {
                    viewer: match old(self).cx.viewer {
                        ViewerState::Single(s) => ViewerState::Single(
                            SingleState { zoom: scale, ..SingleState::fitted_spec(s.current_index) },
                        ),
                        v => v,
                    },
                    app_state: AppState { zoom_to_one_pending: false, ..old(self).cx.app_state },
                    ..old(self).cx
                }
            } else {
                old(self).cx
            },
            own_size_is_shown(old(self).cx, final(self).cx, scale),
    {
        if self.cx.app_state.zoom_to_one_pending {
            if let ViewerState::Single(s) = self.cx.viewer {
                let fitted = SingleState::fitted(s.current_index);
                self.cx.viewer = ViewerState::Single(SingleState { zoom: scale, ..fitted });
            }
            self.cx.app_state.zoom_to_one_pending = false;
        }
    }

    /// Ends the search.
    pub fn clear_search(&mut self)
        requires
            old(self).wf(),
        ensures
            final(self).wf(),
            final(self).search_query@.len() == 0,
            final(self).same_panels(
                GalerieApp { search_query: final(self).search_query, ..*old(self) },
            ),
            refiltered(old(self).cx, final(self).cx, final(self).search_query@),
    {
        self.search_query = String::new();
        self.update_filter();
    }
}

} // verus!
