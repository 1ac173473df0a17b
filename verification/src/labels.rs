//! The texts of the window.
use crate::app::GalerieApp;
use crate::gallery::EditGallery;
use crate::text::{self, decimal_text};
use crate::viewer::{ViewerState, TilingState};
use vstd::prelude::*;

verus! {

broadcast use vstd::string::group_string_axioms;

/// How the photos are shown.
pub fn mode_label(viewer: &ViewerState) -> (r: String)
    ensures
        r@ == match *viewer {
            ViewerState::Tiling(s) => "⊞ "@ + decimal_text(s.cols as nat) + "×"@ + decimal_text(
                s.cols as nat,
            ),
            ViewerState::Single(_) => "⬛ Single"@,
        },
{
    match viewer {
        ViewerState::Tiling(s) => {
            let mut t = "⊞ ".to_owned();
            t.append(text::decimal(s.cols as u64).as_str());
            t.append("×");
            t.append(text::decimal(s.cols as u64).as_str());
            t
        },
        ViewerState::Single(_) => "⬛ Single".to_owned(),
    }
}

/// How many photos there are.
pub fn photos_label(n: usize) -> (r: String)
    ensures
        r@ == decimal_text(n as nat) + " photos"@,
{
    let mut t = text::decimal(n as u64);
    t.append(" photos");
    t
}

/// Which galleries are edited: the name of the only one, or how many there are.
pub fn gallery_label(galleries: &Vec<EditGallery>) -> (r: Option<String>)
    ensures
        match r {
            None => galleries@.len() == 0,
            Some(t) => galleries@.len() > 0 && t@ == "✏ "@ + if galleries@.len() == 1 {
                galleries@[0].name@
            } else {
                decimal_text(galleries@.len()) + " galleries"@
            },
        },
{
    if galleries.len() == 0 {
        return None;
    }
    let mut t = "✏ ".to_owned();
    if galleries.len() == 1 {
        t.append(galleries[0].name.as_str());
    } else {
        let mut n = text::decimal(galleries.len() as u64);
        n.append(" galleries");
        t.append(n.as_str());
    }
    Some(t)
}

/// How many annotations there are, unless there are none.
pub fn annotations_label(n: usize) -> (r: String)
    ensures
        r@ == if n > 0 {
            "✎ "@ + decimal_text(n as nat)
        } else {
            "✎"@
        },
{
    if n > 0 {
        let mut t = "✎ ".to_owned();
        t.append(text::decimal(n as u64).as_str());
        t
    } else {
        "✎".to_owned()
    }
}

/// What is said where no photo is shown.
pub fn nothing_label(no_photos: bool) -> (r: &'static str)
    ensures
        r@ == if no_photos {
            "No images found."@
        } else {
            "No results."@
        },
{
    if no_photos {
        "No images found."
    } else {
        "No results."
    }
}

/// The line of a gallery in the list of galleries.
pub fn selector_line(name: &str, is_member: bool) -> (r: String)
    ensures
        r@ == if is_member {
            "✓"@
        } else {
            "  "@
        } + "  "@ + name@,
{
    let mut t = if is_member {
        "✓".to_owned()
    } else {
        "  ".to_owned()
    };
    t.append("  ");
    t.append(name);
    t
}

/// The line of a gallery on a photo.
pub fn membership_line(name: &str, is_member: bool) -> (r: String)
    ensures
        r@ == if is_member {
            "✓"@
        } else {
            "·"@
        } + " "@ + name@,
{
    let mut t = if is_member {
        "✓".to_owned()
    } else {
        "·".to_owned()
    };
    t.append(" ");
    t.append(name);
    t
}

/// Whether a photo belongs to any of the galleries.
pub fn is_in_any(galleries: &Vec<EditGallery>, path: &str) -> (b: bool)
    requires
        forall|i: int| 0 <= i < galleries@.len() ==> (#[trigger] galleries@[i]).wf(),
    ensures
        b == exists|i: int|
            0 <= i < galleries@.len() && (#[trigger] galleries@[i]).members().contains(path@),
{
    let mut i: usize = 0;
    while i < galleries.len()
        invariant
            i <= galleries@.len(),
            forall|k: int|
                0 <= k < i ==> !(#[trigger] galleries@[k]).members().contains(path@),
            forall|k: int| 0 <= k < galleries@.len() ==> (#[trigger] galleries@[k]).wf(),
        decreases galleries@.len() - i,
    {
        if galleries[i].contains(path) {
            assert(galleries@[i as int].members().contains(path@));
            return true;
        }
        i += 1;
    }
    false
}

/// The number of pages.
pub open spec fn page_count(s: TilingState, total: int) -> int {
    (total + s.tiles() - 1) / s.tiles()
}

impl GalerieApp {
    /// The line above the tiles: the page, the photo in focus, and how many photos the search has left.
    pub fn tiling_header(&self, filename: &str) -> (r: Option<String>)
        requires
            self.wf(),
            self.cx.display@.len() > 0,
        ensures
            match self.cx.viewer {
                ViewerState::Single(_) => r is None,
                ViewerState::Tiling(s) => {
                    let total = self.cx.display@.len();
                    let n = decimal_text(total);
                    r matches Some(t) && t@ == "Page "@ + decimal_text((s.page + 1) as nat) + "/"@
                        + decimal_text(page_count(s, total as int) as nat) + "  ·  "@
                        + decimal_text(s.focus() as nat) + "/"@ + n + "  ·  "@ + filename@
                        + if self.search_query@.len() > 0 {
                        " (filtered: "@ + n + "/"@ + decimal_text(
                            self.cx.collection.photos().len(),
                        ) + " total)"@
                    } else {
                        ""@
                    }
                },
            },
    {
        let s = match self.cx.viewer {
            ViewerState::Tiling(s) => s,
            ViewerState::Single(_) => {
                return None;
            },
        };
        let total = self.cx.display.len();
        let pages = s.total_pages(total);
        let place = s.focused_abs();
        proof {
            let tc = s.tiles();
            assert(tc > 0 && s.page <= s.page * tc) by (nonlinear_arith)
                requires
                    tc == s.cols * s.cols,
                    s.cols >= 1,
                    s.page >= 0,
            ;
            assert(s.page < total);
            assert(pages * tc == tc * pages) by (nonlinear_arith);
            vstd::arithmetic::div_mod::lemma_fundamental_div_mod_converse(
                total + tc - 1,
                tc,
                pages as int,
                total + tc - 1 - pages * tc,
            );
        }
        let mut t = "Page ".to_owned();
        t.append(text::decimal(s.page as u64 + 1).as_str());
        t.append("/");
        t.append(text::decimal(pages as u64).as_str());
        t.append("  ·  ");
        t.append(text::decimal(place as u64).as_str());
        t.append("/");
        t.append(text::decimal(total as u64).as_str());
        t.append("  ·  ");
        t.append(filename);
        let mut found = "".to_owned();
        if text::to_chars(self.search_query.as_str()).len() > 0 {
            found = " (filtered: ".to_owned();
            found.append(text::decimal(total as u64).as_str());
            found.append("/");
            found.append(text::decimal(self.cx.collection.len() as u64).as_str());
            found.append(" total)");
        }
        t.append(found.as_str());
        Some(t)
    }
}

} // verus!
