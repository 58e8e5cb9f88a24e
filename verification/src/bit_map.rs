use vstd::prelude::*;

use crate::grid::{lemma_grid_index_bound, lemma_grid_index_injective, lemma_grid_index_mono};
use crate::height_map::HeightMap;

verus! {

/// Dense two-dimensional grid of booleans, addressed by `(x, y)` with
/// `0 <= x < width`, `0 <= y < height`.  The cell `(x, y)` lives at the
/// linear slot `x * height + y`; every operation of this type uses that one
/// convention.
pub struct BitMap {
    width: usize,
    height: usize,
    buffer: Vec<bool>,
}

impl BitMap {
    /// Number of columns.
    pub closed spec fn spec_width(&self) -> int {
        self.width as int
    }

    /// Number of rows.
    pub closed spec fn spec_height(&self) -> int {
        self.height as int
    }

    /// Structural invariant: the buffer holds exactly one slot per cell.
    pub closed spec fn wf(&self) -> bool {
        self.buffer.len() == self.spec_width() * self.spec_height()
    }

    /// The boolean stored at cell `(x, y)`.
    pub closed spec fn spec_at(&self, x: int, y: int) -> bool {
        self.buffer[x * self.spec_height() + y]
    }

    /// `(x, y)` is a valid cell of this grid.
    pub open spec fn in_range(&self, x: int, y: int) -> bool {
        0 <= x < self.spec_width() && 0 <= y < self.spec_height()
    }

    /// What a defaulting read returns: the stored boolean in range, `false`
    /// outside.
    pub open spec fn spec_get_default(&self, x: int, y: int) -> bool {
        if self.in_range(x, y) {
            self.spec_at(x, y)
        } else {
            false
        }
    }

    /// Fresh `width x height` grid, every cell `false`.
    pub fn new(width: usize, height: usize) -> (r: Self)
        requires
            width * height <= usize::MAX,
        ensures
            r.wf(),
            r.spec_width() == width,
            r.spec_height() == height,
            forall|x: int, y: int| r.in_range(x, y) ==> !r.spec_at(x, y),
    {
        let n = width * height;
        let mut buffer: Vec<bool> = Vec::new();
        let mut k: usize = 0;
        while k < n
            invariant
                buffer.len() == k,
                k <= n,
                forall|t: int| 0 <= t < k ==> !buffer[t],
            decreases n - k,
        {
            buffer.push(false);
            k = k + 1;
        }
        let r = BitMap { width, height, buffer };
        proof {
            assert forall|x: int, y: int| r.in_range(x, y) implies !r.spec_at(x, y) by {
                lemma_grid_index_bound(x, y, width as int, height as int);
            }
        }
        r
    }

    /// Unchecked write: the caller has already established that `(x, y)` is
    /// in range.  Only the named cell changes.
    pub fn unsafe_set(&mut self, x: usize, y: usize, val: bool)
        requires
            old(self).wf(),
            old(self).in_range(x as int, y as int),
        ensures
            final(self).wf(),
            final(self).spec_width() == old(self).spec_width(),
            final(self).spec_height() == old(self).spec_height(),
            final(self).spec_at(x as int, y as int) == val,
            forall|x2: int, y2: int|
                old(self).in_range(x2, y2) && !(x2 == x && y2 == y)
                    ==> final(self).spec_at(x2, y2) == old(self).spec_at(x2, y2),
    {
        proof {
            lemma_grid_index_bound(x as int, y as int, self.spec_width(), self.spec_height());
        }
        let slot = x * self.height + y;
        self.buffer.set(slot, val);
        proof {
            assert forall|x2: int, y2: int|
                old(self).in_range(x2, y2) && !(x2 == x && y2 == y)
                    implies final(self).spec_at(x2, y2) == old(self).spec_at(x2, y2) by {
                lemma_grid_index_bound(x2, y2, self.spec_width(), self.spec_height());
                if x2 * self.spec_height() + y2 == x as int * self.spec_height() + y as int {
                    lemma_grid_index_injective(x2, y2, x as int, y as int, self.spec_height());
                }
            }
        }
    }

    /// Bounds-checked write.  Out-of-range coordinates are a caller error and
    /// are excluded by precondition.
    pub fn set(&mut self, x: usize, y: usize, val: bool)
        requires
            old(self).wf(),
            old(self).in_range(x as int, y as int),
        ensures
            final(self).wf(),
            final(self).spec_width() == old(self).spec_width(),
            final(self).spec_height() == old(self).spec_height(),
            final(self).spec_at(x as int, y as int) == val,
            forall|x2: int, y2: int|
                old(self).in_range(x2, y2) && !(x2 == x && y2 == y)
                    ==> final(self).spec_at(x2, y2) == old(self).spec_at(x2, y2),
    {
        self.unsafe_set(x, y, val)
    }

    /// Unchecked read: the caller has already established that `(x, y)` is in
    /// range.
    pub fn unsafe_get(&self, x: usize, y: usize) -> (r: bool)
        requires
            self.wf(),
            self.in_range(x as int, y as int),
        ensures
            r == self.spec_at(x as int, y as int),
    {
        proof {
            lemma_grid_index_bound(x as int, y as int, self.spec_width(), self.spec_height());
        }
        self.buffer[x * self.height + y]
    }

    /// Bounds-checked read.
    pub fn get(&self, x: usize, y: usize) -> (r: bool)
        requires
            self.wf(),
            self.in_range(x as int, y as int),
        ensures
            r == self.spec_at(x as int, y as int),
    {
        self.unsafe_get(x, y)
    }

    /// Total read: the stored boolean in range, `false` outside.  This is the
    /// sentinel thresholded queries rely on.
    pub fn get_default(&self, x: usize, y: usize) -> (r: bool)
        requires
            self.wf(),
        ensures
            r == self.spec_get_default(x as int, y as int),
    {
        if x < self.width && y < self.height {
            self.unsafe_get(x, y)
        } else {
            false
        }
    }

    /// Width accessor.
    pub fn get_width(&self) -> (r: usize)
        ensures
            r == self.spec_width(),
    {
        self.width
    }

    /// Height accessor.
    pub fn get_height(&self) -> (r: usize)
        ensures
            r == self.spec_height(),
    {
        self.height
    }

    /// Threshold a scalar field: the cell reads `true` exactly where the
    /// source sample is at most `max_val`.
    pub fn from_height_map(hmap: &HeightMap, max_val: i64) -> (r: Self)
        requires
            hmap.wf(),
        ensures
            r.wf(),
            r.spec_width() == hmap.spec_width(),
            r.spec_height() == hmap.spec_height(),
            forall|x: int, y: int|
                r.in_range(x, y) ==> #[trigger] r.spec_at(x, y) == (hmap.spec_at(x, y)
                    <= max_val),
    {
        let w = hmap.get_width();
        let h = hmap.get_height();
        // reading the area puts `w * h <= usize::MAX` in scope for `new`
        let _area = hmap.area();
        let mut out = Self::new(w, h);
        let mut x: usize = 0;
        while x < w
            invariant
                hmap.wf(),
                out.wf(),
                w == hmap.spec_width(),
                h == hmap.spec_height(),
                out.spec_width() == w,
                out.spec_height() == h,
                0 <= x <= w,
                forall|x2: int, y2: int|
                    0 <= x2 < x && 0 <= y2 < h ==> #[trigger] out.spec_at(x2, y2) == (hmap.spec_at(
                        x2,
                        y2,
                    ) <= max_val),
            decreases w - x,
        {
            let mut y: usize = 0;
            while y < h
                invariant
                    hmap.wf(),
                    out.wf(),
                    w == hmap.spec_width(),
                    h == hmap.spec_height(),
                    out.spec_width() == w,
                    out.spec_height() == h,
                    0 <= x < w,
                    0 <= y <= h,
                    forall|x2: int, y2: int|
                        0 <= x2 && 0 <= y2 < h && (x2 < x || (x2 == x && y2 < y))
                            ==> #[trigger] out.spec_at(x2, y2) == (hmap.spec_at(x2, y2)
                            <= max_val),
                decreases h - y,
            {
                let v = hmap.get(x, y);
                out.set(x, y, v <= max_val);
                y = y + 1;
            }
            x = x + 1;
        }
        out
    }

    /// Render the grid to 8-bit gray samples in the grid's own slot order:
    /// `0` (black) where the cell is set, `255` (white) where it is not.
    pub fn to_gray8(&self) -> (r: Vec<u8>)
        requires
            self.wf(),
        ensures
            r.len() == self.spec_width() * self.spec_height(),
            forall|x: int, y: int|
                self.in_range(x, y) ==> r[x * self.spec_height() + y] == if #[trigger] self.spec_at(
                    x,
                    y,
                ) {
                    0int
                } else {
                    255int
                },
    {
        let w = self.width;
        let h = self.height;
        let mut r: Vec<u8> = Vec::new();
        let mut x: usize = 0;
        while x < w
            invariant
                self.wf(),
                w == self.spec_width(),
                h == self.spec_height(),
                0 <= x <= w,
                r.len() == x * h,
                forall|x2: int, y2: int|
                    0 <= x2 < x && 0 <= y2 < h ==> r[x2 * h + y2] == if #[trigger] self.spec_at(
                        x2,
                        y2,
                    ) {
                        0int
                    } else {
                        255int
                    },
            decreases w - x,
        {
            let mut y: usize = 0;
            while y < h
                invariant
                    self.wf(),
                    w == self.spec_width(),
                    h == self.spec_height(),
                    0 <= x < w,
                    0 <= y <= h,
                    r.len() == x * h + y,
                    forall|x2: int, y2: int|
                        0 <= x2 && 0 <= y2 < h && (x2 < x || (x2 == x && y2 < y)) ==> r[x2 * h
                            + y2] == if #[trigger] self.spec_at(x2, y2) {
                            0int
                        } else {
                            255int
                        },
                decreases h - y,
            {
                let v = self.unsafe_get(x, y);
                r.push(if v { 0 } else { 255 });
                proof {
                    assert forall|x2: int, y2: int|
                        0 <= x2 && 0 <= y2 < h && (x2 < x || (x2 == x && y2 < y + 1)) implies r[x2
                        * h + y2] == (if self.spec_at(x2, y2) {
                        0int
                    } else {
                        255int
                    }) by {
                        if !(x2 == x && y2 == y) {
                            lemma_grid_index_mono(x2, y2, x as int, y as int, h as int);
                        }
                    }
                }
                y = y + 1;
            }
            proof {
                assert(x * h + h == (x + 1) * h) by (nonlinear_arith);
            }
            x = x + 1;
        }
        r
    }
}

/// Thresholding round-trip: a binary field built from a scalar field with
/// cutoff `c` reads `true` at `(x, y)` through its defaulting accessor iff
/// `(x, y)` is in range and the source sample there is at most `c`;
/// out-of-range coordinates always read `false`.
pub proof fn lemma_threshold_round_trip(hmap: HeightMap, bmap: BitMap, c: int, x: int, y: int)
    requires
        bmap.spec_width() == hmap.spec_width(),
        bmap.spec_height() == hmap.spec_height(),
        forall|x2: int, y2: int|
            bmap.in_range(x2, y2) ==> #[trigger] bmap.spec_at(x2, y2) == (hmap.spec_at(x2, y2)
                <= c),
    ensures
        bmap.spec_get_default(x, y) == (hmap.in_range(x, y) && hmap.spec_at(x, y) <= c),
{
}

/// One motion command of a toolpath, in the same fixed-point length unit as
/// the field it was cut from.
#[derive(Clone, Copy)]
pub enum Move {
    /// Move to `(x, y)` at the current depth.
    XYmove(i64, i64),
    /// Move to depth `z` at the current planar position.
    Zmove(i64),
    /// Move fast to `(x, y)` at the current depth.
    FXYmove(i64, i64),
}

/// A toolpath: an initial position and an ordered run of motion commands.
#[derive(Clone)]
pub struct Path {
    pub x_init: i64,
    pub y_init: i64,
    pub z_init: i64,
    pub path: Vec<Move>,
}

/// Strategy that assembles a toolpath from a thresholded field; implemented
/// by callers of this library.
pub trait PathAlgo {
    fn from_bit_map(&self, bit_map: &BitMap, x_init: i64, y_init: i64, z_init: i64) -> Path;
}

} // verus!
