//! The two viewing modes: a paged grid of tiles, and a single photo that can be zoomed and panned.
use crate::gallery::PhotoEntry;
use crate::scalar::{Scalar, ONE_BITS};
use std::ops::Range;
use vstd::arithmetic::div_mod::{lemma_fundamental_div_mod, lemma_mod_bound};
use vstd::prelude::*;

verus! {

/// The widest grid: 49 tiles.
pub const MAX_COLS: usize = 7;

/// Bit pattern of one tenth, the smallest zoom of a single photo.
pub const MIN_ZOOM_BITS: u32 = 0x3dcc_cccd;

/// Bit pattern of 20, the largest zoom of a single photo.
pub const MAX_ZOOM_BITS: u32 = 0x41a0_0000;

/// Which way the focus moves.
#[derive(Debug, Clone, Copy, PartialEq, Eq, Structural)]
pub enum Direction {
    Next,
    Prev,
}

/// The viewing mode that an action asks for.
#[derive(Debug, Clone, Copy, PartialEq, Eq, Structural)]
pub enum ModeTarget {
    Tiling,
    Single,
    Toggle,
}

/// A page of tiles, `cols` in each row and column.
#[derive(Debug, Clone, Copy, PartialEq, Eq, Structural)]
pub struct TilingState {
    pub page: usize,
    /// Grid dimension: a page holds `cols * cols` tiles.
    pub cols: usize,
    /// The focused tile within the page, from 0.
    pub selected: usize,
}

/// Offset from the viewport's centre in logical pixels.
#[derive(Debug, Clone, Copy, PartialEq, Eq, Structural)]
pub struct Pan {
    pub x: Scalar,
    pub y: Scalar,
}

/// One photo, with its zoom and pan.
#[derive(Debug, Clone, Copy, PartialEq, Eq, Structural)]
pub struct SingleState {
    pub current_index: usize,
    /// Zoom relative to fit-to-screen.
    pub zoom: Scalar,
    pub pan: Pan,
}

/// What the viewer shows.
#[derive(Debug, Clone, Copy, PartialEq, Eq, Structural)]
pub enum ViewerState {
    Tiling(TilingState),
    Single(SingleState),
}

/// The index `count` photos away from `current`, around a collection of `total` photos.
pub open spec fn moved(current: int, dir: Direction, count: int, total: int) -> int {
    match dir {
        Direction::Next => (current + count) % total,
        Direction::Prev => (current - count) % total,
    }
}

/// The smallest grid dimension, at least 1, with room for `tile_count` tiles.
pub open spec fn is_grid_dimension(cols: int, tile_count: int) -> bool {
    &&& 1 <= cols
    &&& tile_count <= cols * cols
    &&& cols == 1 || (cols - 1) * (cols - 1) < tile_count
}

/// Only one dimension is the smallest with room for `tile_count` tiles.
pub proof fn grid_dimension_is_unique(a: int, b: int, tile_count: int)
    requires
        is_grid_dimension(a, tile_count),
        is_grid_dimension(b, tile_count),
    ensures
        a == b,
{
    if a < b {
        assert(a * a <= (b - 1) * (b - 1)) by (nonlinear_arith)
            requires
                1 <= a <= b - 1,
        ;
    } else if b < a {
        assert(b * b <= (a - 1) * (a - 1)) by (nonlinear_arith)
            requires
                1 <= b <= a - 1,
        ;
    }
}

proof fn lemma_moved_in_range(current: int, dir: Direction, count: int, total: int)
    requires
        total > 0,
    ensures
        0 <= moved(current, dir, count, total) < total,
{
    lemma_mod_bound(current + count, total);
    lemma_mod_bound(current - count, total);
}

/// The position `count` steps on from `current`, computed without leaving the machine's range.
fn step(current: usize, dir: Direction, count: usize, total: usize) -> (r: usize)
    requires
        0 < total,
        current < total,
        dir is Next ==> current + count <= usize::MAX,
    ensures
        r == moved(current as int, dir, count as int, total as int),
        r < total,
{
    proof {
        lemma_moved_in_range(current as int, dir, count as int, total as int);
        lemma_fundamental_div_mod(count as int, total as int);
        lemma_mod_bound(count as int, total as int);
    }
    match dir {
        Direction::Next => (current + count) % total,
        Direction::Prev => {
            let c = count % total;
            let ghost q = count as int / total as int;
            let r = if current < c {
                total - (c - current)
            } else {
                current - c
            };
            proof {
                let k = if current < c {
                    -q - 1
                } else {
                    -q
                };
                assert(current - count == total * k + r) by (nonlinear_arith)
                    requires
                        count == total * q + c,
                        (k == -q - 1 && r == current - c + total) || (k == -q && r == current - c),
                ;
                vstd::arithmetic::div_mod::lemma_fundamental_div_mod_converse(
                    current - count,
                    total as int,
                    k,
                    r as int,
                );
            }
            r
        },
    }
}

impl TilingState {
    /// How many tiles a page holds.
    pub open spec fn tiles(self) -> int {
        self.cols * self.cols
    }

    /// The absolute index of the focused tile.
    pub open spec fn focus(self) -> int {
        self.page * self.tiles() + self.selected
    }

    /// The grid has a tile, and its numbers fit the machine.
    pub open spec fn wf(self) -> bool {
        &&& 1 <= self.cols
        &&& self.tiles() <= usize::MAX
        &&& self.focus() <= usize::MAX
    }

    /// The grid of this dimension with the tile at `index` focused.
    pub open spec fn focused_on(self, index: int) -> TilingState {
        TilingState {
            page: (index / self.tiles()) as usize,
            cols: self.cols,
            selected: (index % self.tiles()) as usize,
        }
    }

    /// A first page with room for `tile_count` tiles.
    pub fn new(tile_count: usize) -> (s: Self)
        ensures
            s.page == 0,
            s.selected == 0,
            is_grid_dimension(s.cols as int, tile_count as int),
            s.tiles() <= usize::MAX ==> s.wf(),
    {
        let cols = grid_dimension(tile_count);
        let s = Self { page: 0, cols, selected: 0 };
        proof {
            assert(0 * s.tiles() == 0);
            assert(s.focus() == 0);
        }
        s
    }

    /// How many tiles a page holds.
    pub fn tile_count(&self) -> (n: usize)
        requires
            self.tiles() <= usize::MAX,
        ensures
            n == self.tiles(),
    {
        self.cols * self.cols
    }

    /// Absolute photo index of the focused tile.
    pub fn focused_abs(&self) -> (i: usize)
        requires
            self.wf(),
        ensures
            i == self.focus(),
    {
        proof {
            assert(self.page * self.tiles() <= usize::MAX);
        }
        self.page * self.tile_count() + self.selected
    }

    /// The photos on this page of a collection of `total`.
    pub fn page_range(&self, total: usize) -> (r: Range<usize>)
        requires
            self.tiles() <= usize::MAX,
            (self.page + 1) * self.tiles() <= usize::MAX,
        ensures
            r.start == self.page * self.tiles(),
            r.end == if (self.page + 1) * self.tiles() <= total {
                (self.page + 1) * self.tiles()
            } else {
                total as int
            },
            self.cols >= 1 ==> forall|i: int|
                0 <= i < total ==> (r.start <= i < r.end <==> #[trigger] (i / self.tiles())
                    == self.page),
    {
        proof {
            if self.cols >= 1 {
                assert forall|i: int| 0 <= i < total implies (self.page * self.tiles() <= i < (
                self.page + 1) * self.tiles() <==> #[trigger] (i / self.tiles()) == self.page) by {
                    lemma_page_of(self.tiles(), self.cols as int, i, self.page as int);
                }
            }
            assert((self.page + 1) * self.tiles() == self.page * self.tiles() + self.tiles())
                by (nonlinear_arith);
            assert(0 <= self.tiles()) by (nonlinear_arith)
                requires
                    self.tiles() == self.cols * self.cols,
                    0 <= self.cols,
            ;
        }
        let tc = self.tile_count();
        let start = self.page * tc;
        let end = if start + tc <= total {
            start + tc
        } else {
            total
        };
        Range { start, end }
    }

    /// The entries shown on this page, which begins within the collection.
    pub fn page_entries<'a>(&self, entries: &'a [PhotoEntry]) -> (r: &'a [PhotoEntry])
        requires
            self.tiles() <= usize::MAX,
            (self.page + 1) * self.tiles() <= usize::MAX,
            self.page * self.tiles() <= entries@.len(),
        ensures
            r@ == entries@.subrange(
                self.page * self.tiles(),
                if (self.page + 1) * self.tiles() <= entries@.len() {
                    (self.page + 1) * self.tiles()
                } else {
                    entries@.len() as int
                },
            ),
            self.cols >= 1 ==> forall|i: int|
                0 <= i < entries@.len() && #[trigger] (i / self.tiles()) == self.page ==> i
                    - self.page * self.tiles() < r@.len() && r@[i - self.page * self.tiles()]
                    == entries@[i],
    {
        let r = self.page_range(entries.len());
        proof {
            assert((self.page + 1) * self.tiles() == self.page * self.tiles() + self.tiles())
                by (nonlinear_arith);
            assert(0 <= self.tiles()) by (nonlinear_arith)
                requires
                    self.tiles() == self.cols * self.cols,
                    0 <= self.cols,
            ;
        }
        vstd::slice::slice_subrange(entries, r.start, r.end)
    }

    /// How many pages `total` photos fill; none where the grid has no tile.
    pub fn total_pages(&self, total: usize) -> (n: usize)
        requires
            self.tiles() <= usize::MAX,
        ensures
            self.cols == 0 ==> n == 0,
            self.cols > 0 ==> (total as int) <= n * self.tiles() < total + self.tiles(),
    {
        let tc = self.tile_count();
        if tc == 0 {
            proof {
                if self.cols > 0 {
                    assert(self.tiles() > 0) by (nonlinear_arith)
                        requires
                            self.tiles() == self.cols * self.cols,
                            self.cols > 0,
                    ;
                }
            }
            return 0;
        }
        proof {
            lemma_fundamental_div_mod(total as int, tc as int);
            lemma_mod_bound(total as int, tc as int);
            assert(self.cols > 0) by {
                if self.cols == 0 {
                    assert(self.tiles() == 0);
                }
            }
        }
        let q = total / tc;
        proof {
            assert((q + 1) * tc == q * tc + tc) by (nonlinear_arith);
            assert(tc * q == q * tc) by (nonlinear_arith);
        }
        if total % tc == 0 {
            q
        } else {
            proof {
                assert(q + 1 <= total) by {
                    assert(q <= total - 1) by (nonlinear_arith)
                        requires
                            q * tc < total,
                            tc >= 1,
                            q >= 0,
                    ;
                }
            }
            q + 1
        }
    }

    /// Put the focus on the photo at `index`.
    pub fn focus_on(&mut self, index: usize)
        requires
            old(self).wf(),
        ensures
            *final(self) == old(self).focused_on(index as int),
            final(self).wf(),
            final(self).focus() == index,
            final(self).selected < final(self).tiles(),
    {
        let tc = self.tile_count();
        proof {
            assert(tc > 0) by (nonlinear_arith)
                requires
                    tc == self.cols * self.cols,
                    self.cols > 0,
            ;
            lemma_fundamental_div_mod(index as int, tc as int);
            lemma_mod_bound(index as int, tc as int);
            assert(tc * (index as int / tc as int) == (index as int / tc as int) * tc)
                by (nonlinear_arith);
        }
        self.page = index / tc;
        self.selected = index % tc;
    }

    /// Move the focus by `count` photos, around the whole collection.
    pub fn move_by(&mut self, dir: Direction, count: usize, total: usize)
        requires
            old(self).wf(),
            total > 0 && dir is Next ==> nearest_index(old(self).focus(), total as int) + count
                <= usize::MAX,
        ensures
            total == 0 ==> *final(self) == *old(self),
            total > 0 ==> {
                &&& *final(self) == old(self).focused_on(
                    moved(
                        nearest_index(old(self).focus(), total as int),
                        dir,
                        count as int,
                        total as int,
                    ),
                )
                &&& final(self).focus() == moved(
                    nearest_index(old(self).focus(), total as int),
                    dir,
                    count as int,
                    total as int,
                )
                &&& final(self).focus() < total
            },
            final(self).wf(),
    {
        if total == 0 {
            return;
        }
        let f = self.focused_abs();
        let current = if f <= total - 1 {
            f
        } else {
            total - 1
        };
        let target = step(current, dir, count, total);
        self.focus_on(target);
    }

    /// Bring the focused tile back onto an existing photo.
    pub fn clamp_selected(&mut self, total: usize)
        requires
            old(self).wf(),
        ensures
            final(self).cols == old(self).cols,
            total == 0 ==> final(self).page == old(self).page && final(self).selected == 0,
            total > 0 && old(self).page * old(self).tiles() >= total ==> final(self).page == 0
                && final(self).selected == 0,
            total > 0 && old(self).page * old(self).tiles() < total ==> {
                let left = total - old(self).page * old(self).tiles();
                let on_page = if left <= old(self).tiles() {
                    left
                } else {
                    old(self).tiles()
                };
                &&& final(self).page == old(self).page
                &&& final(self).selected == if old(self).selected < on_page {
                    old(self).selected as int
                } else {
                    on_page - 1
                }
            },
            final(self).wf(),
            total > 0 ==> final(self).focus() < total,
            old(self).focus() < total && old(self).selected < old(self).tiles() ==> *final(self)
                == *old(self),
    {
        proof {
            assert(self.tiles() > 0) by (nonlinear_arith)
                requires
                    self.tiles() == self.cols * self.cols,
                    self.cols > 0,
            ;
        }
        if total == 0 {
            self.selected = 0;
            return;
        }
        let tc = self.tile_count();
        let page_start = self.page * tc;
        let left = total.saturating_sub(page_start);
        let on_page = if left <= tc {
            left
        } else {
            tc
        };
        if on_page == 0 {
            self.page = 0;
            self.selected = 0;
            assert(self.focus() == 0) by {
                assert(0 * self.tiles() == 0);
            }
        } else if self.selected > on_page - 1 {
            self.selected = on_page - 1;
        }
    }
}

/// The page on which a photo stands.
proof fn lemma_page_of(tiles: int, cols: int, i: int, page: int)
    requires
        tiles == cols * cols,
        cols >= 1,
        0 <= i,
        0 <= page,
    ensures
        page * tiles <= i < (page + 1) * tiles <==> i / tiles == page,
{
    assert(tiles >= 1) by (nonlinear_arith)
        requires
            tiles == cols * cols,
            cols >= 1,
    ;
    vstd::arithmetic::div_mod::lemma_fundamental_div_mod(i, tiles);
    assert((page + 1) * tiles == page * tiles + tiles) by (nonlinear_arith);
    assert((i / tiles) * tiles == tiles * (i / tiles)) by (nonlinear_arith);
    if page * tiles <= i < (page + 1) * tiles {
        vstd::arithmetic::div_mod::lemma_fundamental_div_mod_converse(
            i,
            tiles,
            page,
            i - page * tiles,
        );
    }
}

/// `index`, or the last of `total` where it lies beyond.
pub open spec fn nearest_index(index: int, total: int) -> int {
    if index <= total - 1 {
        index
    } else {
        total - 1
    }
}

/// The smallest dimension of a square grid with room for `tile_count` tiles.
fn grid_dimension(tile_count: usize) -> (cols: usize)
    ensures
        is_grid_dimension(cols as int, tile_count as int),
{
    if tile_count <= 1 {
        return 1;
    }
    let n: u128 = tile_count as u128;
    let mut lo: u64 = 1;
    let mut hi: u64 = 0x1_0000_0000;
    assert(0x1_0000_0000 * 0x1_0000_0000 == 0x1_0000_0000_0000_0000);
    while hi - lo > 1
        invariant
            1 <= lo < hi <= 0x1_0000_0000,
            n == tile_count,
            lo * lo < n,
            n <= hi * hi,
        decreases hi - lo,
    {
        let mid: u64 = lo + (hi - lo) / 2;
        proof {
            assert(mid * mid <= 0x1_0000_0000_0000_0000) by (nonlinear_arith)
                requires
                    1 <= mid <= 0x1_0000_0000,
            ;
        }
        if (mid as u128) * (mid as u128) < n {
            lo = mid;
        } else {
            hi = mid;
        }
    }
    proof {
        // The dimension fits: it is no larger than the number of tiles.
        assert(lo + 1 <= tile_count) by {
            assert(lo < n) by (nonlinear_arith)
                requires
                    lo * lo < n,
                    1 <= lo,
            ;
        }
        assert(hi - 1 == lo);
    }
    hi as usize
}

/// `from`, `from + 1` and so on, up to but not including `to`.
pub open spec fn index_run(from: int, to: int) -> Seq<usize> {
    Seq::new(
        if from < to {
            (to - from) as nat
        } else {
            0
        },
        |i: int| (from + i) as usize,
    )
}

/// The photo at `index` and its neighbours, which stop at the first and the last of `total`.
pub open spec fn neighbours(index: int, total: int) -> Seq<usize> {
    let prev = if index > 0 {
        index - 1
    } else {
        0
    };
    let next = nearest_index(index + 1, total);
    let first = seq![index as usize];
    let second = if prev != index {
        first.push(prev as usize)
    } else {
        first
    };
    if next != prev {
        second.push(next as usize)
    } else {
        second
    }
}

/// `zoom` kept between the smallest and the largest zoom.
pub open spec fn clamped_zoom(zoom: Scalar) -> Scalar {
    zoom.clamped_spec(Scalar { bits: MIN_ZOOM_BITS }, Scalar { bits: MAX_ZOOM_BITS })
}

/// The dimension that a grid of `cols` has after a zoom step of `delta`.
pub open spec fn zoomed_cols(cols: int, delta: int) -> int {
    if cols - delta < 1 {
        1
    } else if cols - delta > MAX_COLS {
        MAX_COLS as int
    } else {
        cols - delta
    }
}

impl SingleState {
    /// The photo at `index`, fitted to the screen.
    pub open spec fn fitted_spec(index: usize) -> SingleState {
        SingleState {
            current_index: index,
            zoom: Scalar { bits: ONE_BITS },
            pan: Pan { x: Scalar { bits: 0 }, y: Scalar { bits: 0 } },
        }
    }

    /// The photo at `index`, fitted to the screen.
    pub fn fitted(index: usize) -> (s: Self)
        ensures
            s == Self::fitted_spec(index),
    {
        SingleState {
            current_index: index,
            zoom: Scalar::one(),
            pan: Pan { x: Scalar::zero(), y: Scalar::zero() },
        }
    }

    /// Whether the photo is shown as it fits the screen.
    pub fn is_fitted(&self) -> (b: bool)
        ensures
            b == (self.zoom.near_one_spec() && self.pan.x.eq_value(Scalar { bits: 0 })
                && self.pan.y.eq_value(Scalar { bits: 0 })),
    {
        self.zoom.near_one() && self.pan.x.equals(Scalar::zero()) && self.pan.y.equals(
            Scalar::zero(),
        )
    }
}

impl ViewerState {
    /// The grid, where there is one, is well formed.
    pub open spec fn wf(self) -> bool {
        match self {
            ViewerState::Tiling(s) => s.wf(),
            ViewerState::Single(_) => true,
        }
    }

    /// The absolute index of the photo in focus.
    pub open spec fn focus(self) -> int {
        match self {
            ViewerState::Tiling(s) => s.focus(),
            ViewerState::Single(s) => s.current_index as int,
        }
    }

    /// Where the focus goes when it moves by `count` photos of `total`. The grid first brings a
    /// focus beyond the last photo back to it; a single photo beyond the last goes back from where
    /// it is.
    pub open spec fn target(self, dir: Direction, count: int, total: int) -> int {
        match self {
            ViewerState::Tiling(s) => moved(nearest_index(s.focus(), total), dir, count, total),
            ViewerState::Single(s) => if s.current_index >= total && dir is Prev {
                s.current_index - count % total
            } else {
                moved(s.current_index as int, dir, count, total)
            },
        }
    }

    /// The focus can move by `count` photos of `total` within the numbers of the machine.
    pub open spec fn may_navigate(self, dir: Direction, count: usize, total: int) -> bool {
        total > 0 && dir is Next ==> match self {
            ViewerState::Tiling(s) => nearest_index(s.focus(), total) + count <= usize::MAX,
            ViewerState::Single(s) => s.current_index + count as int % total <= usize::MAX,
        }
    }

    /// The viewer after the focus moved by `count` photos of `total`.
    pub open spec fn navigated(self, dir: Direction, count: int, total: int) -> ViewerState {
        let to = self.target(dir, count, total);
        if total == 0 {
            self
        } else {
            match self {
                ViewerState::Tiling(s) => ViewerState::Tiling(s.focused_on(to)),
                ViewerState::Single(s) => ViewerState::Single(
                    if to == s.current_index {
                        s
                    } else {
                        SingleState::fitted_spec(to as usize)
                    },
                ),
            }
        }
    }

    /// The viewer after the grid's dimension changed by a step of `delta`.
    pub open spec fn regridded(self, delta: int, total: int) -> ViewerState {
        match self {
            ViewerState::Tiling(s) => ViewerState::Tiling(
                TilingState { cols: zoomed_cols(s.cols as int, delta) as usize, ..s }.focused_on(
                    if total == 0 {
                        0
                    } else {
                        nearest_index(s.focus(), total)
                    },
                ),
            ),
            ViewerState::Single(_) => self,
        }
    }

    /// The viewer with the focus on the photo at `index`.
    pub open spec fn refocused(self, index: usize) -> ViewerState {
        match self {
            ViewerState::Tiling(s) => ViewerState::Tiling(s.focused_on(index as int)),
            ViewerState::Single(s) => ViewerState::Single(SingleState { current_index: index, ..s }),
        }
    }

    /// The viewer with the photo in single view zoomed.
    pub open spec fn zoomed(self, scaled: Scalar) -> ViewerState {
        match self {
            ViewerState::Tiling(s) => ViewerState::Tiling(s),
            ViewerState::Single(s) => ViewerState::Single(
                SingleState { zoom: clamped_zoom(scaled), ..s },
            ),
        }
    }

    /// The viewer with the photo in single view fitted to the screen.
    pub open spec fn fitted_again(self) -> ViewerState {
        match self {
            ViewerState::Tiling(s) => ViewerState::Tiling(s),
            ViewerState::Single(s) => ViewerState::Single(
                SingleState::fitted_spec(s.current_index),
            ),
        }
    }

    /// `after` is the grid for `tile_count` tiles on the page that holds the photo in focus.
    pub open spec fn becomes_grid(self, tile_count: int, after: ViewerState) -> bool {
        after matches ViewerState::Tiling(s) && is_grid_dimension(s.cols as int, tile_count) && s
            == s.focused_on(self.focus())
    }

    /// Put the focus on the photo at `index`. A single photo keeps its zoom and pan.
    pub fn refocus(&mut self, index: usize)
        requires
            old(self).wf(),
        ensures
            final(self).wf(),
            *final(self) == old(self).refocused(index),
            final(self).focus() == index,
    {
        match *self {
            ViewerState::Tiling(s) => {
                let mut t = s;
                t.focus_on(index);
                *self = ViewerState::Tiling(t);
            },
            ViewerState::Single(s) => {
                *self =
                ViewerState::Single(
                    SingleState { current_index: index, zoom: s.zoom, pan: s.pan },
                );
            },
        }
    }

    /// A grid with room for `tile_count` tiles, on its first page.
    pub fn new_tiling(tile_count: usize) -> (v: Self)
        ensures
            v matches ViewerState::Tiling(s) && s.page == 0 && s.selected == 0
                && is_grid_dimension(s.cols as int, tile_count as int) && (s.tiles() <= usize::MAX
                ==> s.wf()),
    {
        ViewerState::Tiling(TilingState::new(tile_count))
    }

    /// The absolute index of the photo that rating, script and filter act on.
    pub fn focused_index(&self) -> (i: usize)
        requires
            self.wf(),
        ensures
            i == self.focus(),
    {
        match self {
            ViewerState::Tiling(s) => s.focused_abs(),
            ViewerState::Single(s) => s.current_index,
        }
    }

    /// The photos to have at hand, of `total`.
    pub fn visible_indices(&self, total: usize) -> (v: Vec<usize>)
        requires
            total > 0 ==> match *self {
                ViewerState::Tiling(s) => s.tiles() <= usize::MAX && (s.page + 1) * s.tiles()
                    <= usize::MAX,
                ViewerState::Single(s) => s.current_index < usize::MAX,
            },
        ensures
            total == 0 ==> v@ == Seq::<usize>::empty(),
            total > 0 ==> v@ == match *self {
                ViewerState::Tiling(s) => index_run(
                    s.page * s.tiles(),
                    if (s.page + 1) * s.tiles() <= total {
                        (s.page + 1) * s.tiles()
                    } else {
                        total as int
                    },
                ),
                ViewerState::Single(s) => neighbours(s.current_index as int, total as int),
            },
            *self matches ViewerState::Tiling(s) ==> s.cols >= 1 ==> forall|i: int|
                0 <= i < total ==> (v@.contains(i as usize) <==> #[trigger] (i / s.tiles())
                    == s.page),
    {
        let mut v: Vec<usize> = Vec::new();
        if total == 0 {
            return v;
        }
        match self {
            ViewerState::Tiling(s) => {
                let r = s.page_range(total);
                let mut i: usize = r.start;
                while i < r.end
                    invariant
                        r.start <= i,
                        i <= r.end || i == r.start,
                        v@ == index_run(r.start as int, i as int),
                    decreases r.end - i,
                {
                    v.push(i);
                    assert(index_run(r.start as int, i + 1) == index_run(
                        r.start as int,
                        i as int,
                    ).push(i));
                    i += 1;
                }
                proof {
                    assert(v@ == index_run(r.start as int, r.end as int));
                    assert forall|i: int| 0 <= i < total && s.cols >= 1 implies (v@.contains(
                        i as usize,
                    ) <==> #[trigger] (i / s.tiles()) == s.page) by {
                        if r.start <= i < r.end {
                            assert(v@[i - r.start] == i as usize);
                        }
                    }
                }
            },
            ViewerState::Single(s) => {
                let index = s.current_index;
                let prev = index.saturating_sub(1);
                let next = if index + 1 <= total - 1 {
                    index + 1
                } else {
                    total - 1
                };
                v.push(index);
                if prev != index {
                    v.push(prev);
                }
                if next != prev {
                    v.push(next);
                }
                proof {
                    assert(seq![index] == Seq::<usize>::empty().push(index));
                    assert(v@ == neighbours(index as int, total as int));
                }
            },
        }
        v
    }

    /// Whether the focus can move by `count` photos of `total` within the numbers of the machine.
    pub fn can_navigate(&self, dir: Direction, count: usize, total: usize) -> (b: bool)
        requires
            self.wf(),
        ensures
            b == self.may_navigate(dir, count, total as int),
    {
        if total == 0 || matches!(dir, Direction::Prev) {
            return true;
        }
        match self {
            ViewerState::Tiling(s) => {
                let f = s.focused_abs();
                let current = if f <= total - 1 {
                    f
                } else {
                    total - 1
                };
                current.checked_add(count).is_some()
            },
            ViewerState::Single(s) => s.current_index.checked_add(count % total).is_some(),
        }
    }

    /// Move the focus by `count` photos, around a collection of `total`. A single photo that gives
    /// way to another takes its zoom and pan with it.
    pub fn navigate(&mut self, dir: Direction, count: usize, total: usize)
        requires
            old(self).wf(),
            old(self).may_navigate(dir, count, total as int),
        ensures
            final(self).wf(),
            *final(self) == old(self).navigated(dir, count as int, total as int),
            total > 0 ==> final(self).focus() == old(self).target(dir, count as int, total as int),
            total > 0 && old(self).focus() < total ==> final(self).focus() < total,
    {
        if total == 0 {
            return;
        }
        match *self {
            ViewerState::Single(s) => {
                let c = count % total;
                proof {
                    lemma_mod_bound(count as int, total as int);
                    lemma_fundamental_div_mod(count as int, total as int);
                    lemma_moved_by_remainder(
                        s.current_index as int,
                        dir,
                        count as int,
                        total as int,
                    );
                }
                let index = match dir {
                    Direction::Next => (s.current_index + c) % total,
                    Direction::Prev => if s.current_index < total {
                        step(s.current_index, dir, c, total)
                    } else {
                        s.current_index - c
                    },
                };
                proof {
                    lemma_moved_in_range(s.current_index as int, dir, count as int, total as int);
                }
                if index != s.current_index {
                    *self = ViewerState::Single(SingleState::fitted(index));
                }
            },
            ViewerState::Tiling(s) => {
                let mut t = s;
                t.move_by(dir, count, total);
                *self = ViewerState::Tiling(t);
            },
        }
    }

    /// Change the grid's dimension, keeping the photo in focus. A positive `delta` shows fewer tiles.
    /// A single photo is left as it is.
    pub fn zoom_tiling(&mut self, delta: i32, total: usize)
        requires
            old(self).wf(),
            *old(self) matches ViewerState::Tiling(s) ==> s.cols <= i32::MAX && i32::MIN <= s.cols
                - delta <= i32::MAX,
        ensures
            final(self).wf(),
            *final(self) == old(self).regridded(delta as int, total as int),
            *old(self) is Tiling ==> final(self).focus() == if total == 0 {
                0
            } else {
                nearest_index(old(self).focus(), total as int)
            },
    {
        if let ViewerState::Tiling(s) = *self {
            let f = s.focused_abs();
            let last = total.saturating_sub(1);
            let focused = if f <= last {
                f
            } else {
                last
            };
            let wanted = s.cols as i32 - delta;
            let cols: usize = if wanted < 1 {
                1
            } else if wanted > 7 {
                MAX_COLS
            } else {
                wanted as usize
            };
            proof {
                assert(1 <= cols * cols <= 49) by (nonlinear_arith)
                    requires
                        1 <= cols <= 7,
                ;
                assert(0 * (cols * cols) == 0);
            }
            let mut t = TilingState { page: 0, cols, selected: 0 };
            t.focus_on(focused);
            *self = ViewerState::Tiling(t);
        }
    }

    /// Show the photo at `index` alone, fitted to the screen.
    pub fn switch_to_single(&mut self, index: usize)
        ensures
            *final(self) == ViewerState::Single(SingleState::fitted_spec(index)),
    {
        *self = ViewerState::Single(SingleState::fitted(index));
    }

    /// Set the zoom of a single photo to `scaled`, which is its zoom times a power of 1.25, kept
    /// between the smallest and the largest zoom.
    pub fn zoom_single(&mut self, scaled: Scalar)
        ensures
            *final(self) == old(self).zoomed(scaled),
    {
        if let ViewerState::Single(s) = *self {
            let min = Scalar { bits: MIN_ZOOM_BITS };
            let max = Scalar { bits: MAX_ZOOM_BITS };
            let zoom = scaled.clamped(min, max);
            *self = ViewerState::Single(
                SingleState { current_index: s.current_index, zoom, pan: s.pan },
            );
        }
    }

    /// Fit a single photo to the screen.
    pub fn reset_single_zoom(&mut self)
        ensures
            *final(self) == old(self).fitted_again(),
    {
        if let ViewerState::Single(s) = *self {
            *self = ViewerState::Single(SingleState::fitted(s.current_index));
        }
    }

    /// Show a grid with room for `tile_count` tiles on the page that holds the focused photo.
    pub fn switch_to_tiling(&mut self, tile_count: usize)
        requires
            old(self).wf(),
            has_room(tile_count as int),
        ensures
            final(self).wf(),
            final(self).focus() == old(self).focus(),
            old(self).becomes_grid(tile_count as int, *final(self)),
    {
        let focused = self.focused_index();
        let mut s = TilingState::new(tile_count);
        proof {
            lemma_has_room(s.cols as int, tile_count as int);
        }
        s.focus_on(focused);
        *self = ViewerState::Tiling(s);
    }

    /// Change from the grid to the focused photo, or from a single photo to the grid.
    pub fn toggle(&mut self, tile_count: usize)
        requires
            old(self).wf(),
            *old(self) is Single ==> has_room(tile_count as int),
        ensures
            final(self).wf(),
            final(self).focus() == old(self).focus(),
            *old(self) is Tiling ==> *final(self) == ViewerState::Single(
                SingleState::fitted_spec(old(self).focus() as usize),
            ),
            *old(self) is Single ==> old(self).becomes_grid(tile_count as int, *final(self)),
    {
        let focused = self.focused_index();
        match *self {
            ViewerState::Tiling(_) => self.switch_to_single(focused),
            ViewerState::Single(_) => self.switch_to_tiling(tile_count),
        }
    }
}

/// The smallest grid with room for `tile_count` tiles has no more tiles than the machine counts.
pub open spec fn has_room(tile_count: int) -> bool {
    exists|cols: int| 1 <= cols && tile_count <= #[trigger] square(cols) <= usize::MAX
}

/// Whether a grid can have room for `tile_count` tiles.
pub fn can_tile(tile_count: usize) -> (b: bool)
    ensures
        b == has_room(tile_count as int),
{
    let s = TilingState::new(tile_count);
    let b = s.cols.checked_mul(s.cols).is_some();
    proof {
        if has_room(tile_count as int) {
            lemma_has_room(s.cols as int, tile_count as int);
        }
        if b {
            assert(tile_count <= square(s.cols as int) <= usize::MAX);
        }
    }
    b
}

/// `c` times itself.
pub open spec fn square(c: int) -> int {
    c * c
}

pub proof fn lemma_has_room(cols: int, tile_count: int)
    requires
        has_room(tile_count),
        is_grid_dimension(cols, tile_count),
    ensures
        cols * cols <= usize::MAX,
{
    let c = choose|c: int| 1 <= c && tile_count <= #[trigger] square(c) <= usize::MAX;
    if cols > c {
        assert(c * c <= (cols - 1) * (cols - 1)) by (nonlinear_arith)
            requires
                1 <= c <= cols - 1,
        ;
    } else {
        assert(cols * cols <= c * c) by (nonlinear_arith)
            requires
                1 <= cols <= c,
        ;
    }
}

proof fn lemma_moved_by_remainder(current: int, dir: Direction, count: int, total: int)
    requires
        total > 0,
    ensures
        moved(current, dir, count, total) == moved(current, dir, count % total, total),
{
    vstd::arithmetic::div_mod::lemma_add_mod_noop_right(current, count, total);
    vstd::arithmetic::div_mod::lemma_sub_mod_noop_right(current, count, total);
}

/// Going forth and back by the same number of photos ends where it began.
pub proof fn navigation_is_undone(current: int, count: int, total: int)
    requires
        0 <= current < total,
    ensures
        moved(moved(current, Direction::Next, count, total), Direction::Prev, count, total)
            == current,
        moved(moved(current, Direction::Prev, count, total), Direction::Next, count, total)
            == current,
{
    vstd::arithmetic::div_mod::lemma_sub_mod_noop(current + count, count, total);
    vstd::arithmetic::div_mod::lemma_sub_mod_noop_right((current + count) % total, count, total);
    vstd::arithmetic::div_mod::lemma_add_mod_noop(current - count, count, total);
    vstd::arithmetic::div_mod::lemma_add_mod_noop_right((current - count) % total, count, total);
    vstd::arithmetic::div_mod::lemma_small_mod(current as nat, total as nat);
}

} // verus!
