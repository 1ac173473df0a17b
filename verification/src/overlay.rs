//! What is shown on top of the photos: the file name, the rating, and messages that fade.
use vstd::prelude::*;

verus! {

/// How long a message stays, in nanoseconds.
pub const TOAST_NANOS: u64 = 3_000_000_000;

/// A message.
#[derive(Debug)]
pub struct Toast {
    pub message: String,
    /// The time at which it appeared, in nanoseconds.
    pub born_at: u64,
}

/// What is shown on top of the photos.
#[derive(Debug)]
pub struct OverlayState {
    pub show_filename: bool,
    pub show_rating: bool,
    pub toast: Option<Toast>,
}

impl Default for OverlayState {
    fn default() -> (s: Self)
        ensures
            s.show_filename,
            s.show_rating,
            s.toast is None,
    {
        OverlayState { show_filename: true, show_rating: true, toast: None }
    }
}

impl OverlayState {
    /// The message, if one is held.
    pub open spec fn message(self) -> Option<Seq<char>> {
        match self.toast {
            Some(t) => Some(t.message@),
            None => None,
        }
    }

    /// What is held says `text`, since `now`, and all else is as in `before`.
    pub open spec fn says(self, before: OverlayState, text: Seq<char>, now: u64) -> bool {
        &&& self.message() == Some(text)
        &&& self.toast->0.born_at == now
        &&& self.show_filename == before.show_filename
        &&& self.show_rating == before.show_rating
    }

    /// How long the message still stays; `None` where there is none any more. A clock that has
    /// gone back counts as one that has stood still.
    pub open spec fn remaining(self, now: u64) -> Option<u64> {
        match self.toast {
            Some(t) => {
                let age = if now < t.born_at {
                    0
                } else {
                    now - t.born_at
                };
                if age < TOAST_NANOS {
                    Some((TOAST_NANOS - age) as u64)
                } else {
                    None
                }
            },
            None => None,
        }
    }

    /// Shows a message in place of any other.
    pub fn push_toast(&mut self, message: String, now: u64)
        ensures
            final(self).says(*old(self), message@, now),
    {
        self.toast = Some(Toast { message, born_at: now });
    }

    /// Whether a message is still to be shown.
    pub fn is_toast_alive(&self, now: u64) -> (b: bool)
        ensures
            b == (self.remaining(now) is Some),
    {
        match &self.toast {
            Some(t) => now < t.born_at || now - t.born_at < TOAST_NANOS,
            None => false,
        }
    }

    /// Forgets a message whose time is over. For one that stays, says for how long.
    pub fn tick_toast(&mut self, now: u64) -> (r: Option<u64>)
        ensures
            r == old(self).remaining(now),
            r is Some ==> *final(self) == *old(self),
            r is None ==> final(self).toast is None && final(self).show_filename == old(
                self,
            ).show_filename && final(self).show_rating == old(self).show_rating,
    {
        if self.is_toast_alive(now) {
            match &self.toast {
                Some(t) => {
                    if now < t.born_at {
                        Some(TOAST_NANOS)
                    } else {
                        Some(TOAST_NANOS - (now - t.born_at))
                    }
                },
                None => None,
            }
        } else {
            self.toast = None;
            None
        }
    }
}

/// How many stars a rating shows: from one to five.
pub open spec fn stars_of(rating: u8) -> int {
    if rating < 1 {
        1
    } else if rating > 5 {
        5
    } else {
        rating as int
    }
}

/// The text of a number of stars.
pub open spec fn star_text(n: int) -> Seq<char> {
    if n == 1 {
        "★"@
    } else if n == 2 {
        "★★"@
    } else if n == 3 {
        "★★★"@
    } else if n == 4 {
        "★★★★"@
    } else {
        "★★★★★"@
    }
}

/// The badge of a rating: how many stars, and their text. Nothing for a photo without a rating.
pub fn rating_badge(rating: Option<u8>) -> (r: Option<(usize, &'static str)>)
    ensures
        r is Some <==> rating is Some,
        r matches Some(badge) ==> badge.0 == stars_of(rating->0) && badge.1@ == star_text(
            stars_of(rating->0),
        ),
{
    match rating {
        None => None,
        Some(n) => Some(
            if n <= 1 {
                (1, "★")
            } else if n == 2 {
                (2, "★★")
            } else if n == 3 {
                (3, "★★★")
            } else if n == 4 {
                (4, "★★★★")
            } else {
                (5, "★★★★★")
            },
        ),
    }
}

} // verus!
