use vstd::prelude::*;

use crate::grid::{lemma_grid_index_bound, lemma_grid_index_injective};

verus! {

/// Fixed-point unit of a luminance sample: ingestion composites an 8-bit
/// sample over an 8-bit background, so one unit of normalized luminance is
/// `255 * 255` raw steps.  A fully black opaque pixel ingests to
/// `-SAMPLE_ONE`, a fully white one to `0`.
pub const SAMPLE_ONE: i64 = 65025;

/// Largest magnitude a sample may have on entry to the convolution engine,
/// so that the sum of a surface sample and a tool sample never overflows.
pub const SAMPLE_MAX: i64 = 0x2000_0000_0000_0000;

/// Additive identity of the max-plus semiring, as this library approximates
/// it: a sentinel below every sum of two in-bound samples
/// (`NEG_INF == -2 * SAMPLE_MAX`).  It marks "no material here" cells of a
/// tool impulse and seeds the running maximum of the convolution.  `0` would
/// be wrong in that role: it would dominate legitimate negative offsets.
pub const NEG_INF: i64 = -0x4000_0000_0000_0000;

/// Dense two-dimensional grid of fixed-point height samples, addressed by
/// `(x, y)` with `0 <= x < width`, `0 <= y < height`.  The cell `(x, y)`
/// lives at the linear slot `x * height + y`; every operation of this type
/// uses that one convention.
pub struct HeightMap {
    width: usize,
    height: usize,
    buffer: Vec<i64>,
}

/// Luminance of an 8-bit RGB sample, the BT.709-weighted integer average
/// `(2126 r + 7152 g + 722 b) / 10000` that the raster decoder applies.
pub open spec fn spec_luma(r: int, g: int, b: int) -> int {
    (2126 * r + 7152 * g + 722 * b) / 10000
}

/// Value a raster sample ingests to: the sample's luminance is
/// alpha-composited over the background luminance (all three in `[0, 255]`),
/// and the result is shifted so that opaque white maps to `0` and opaque
/// black to `-SAMPLE_ONE`, in fixed-point steps of `1 / SAMPLE_ONE`.
pub open spec fn spec_ingest(luma: int, alpha: int, background_luma: int) -> int {
    luma * alpha + background_luma * (255 - alpha) - SAMPLE_ONE
}

impl HeightMap {
    /// Number of columns.
    pub closed spec fn spec_width(&self) -> int {
        self.width as int
    }

    /// Number of rows.
    pub closed spec fn spec_height(&self) -> int {
        self.height as int
    }

    /// Structural invariant: the buffer holds exactly one slot per cell.
    pub closed spec fn wf(&self) -> bool {
        self.buffer.len() == self.spec_width() * self.spec_height()
    }

    /// The sample stored at cell `(x, y)`.
    pub closed spec fn spec_at(&self, x: int, y: int) -> int {
        self.buffer[x * self.spec_height() + y] as int
    }

    /// `(x, y)` is a valid cell of this grid.
    pub open spec fn in_range(&self, x: int, y: int) -> bool {
        0 <= x < self.spec_width() && 0 <= y < self.spec_height()
    }

    /// Every sample is small enough to enter the convolution engine.
    pub open spec fn bounded(&self) -> bool {
        forall|x: int, y: int|
            self.in_range(x, y) ==> -SAMPLE_MAX <= #[trigger] self.spec_at(x, y) <= SAMPLE_MAX
    }

    /// Fresh `width x height` field, every sample `0`.
    pub fn new(width: usize, height: usize) -> (r: Self)
        requires
            width * height <= usize::MAX,
        ensures
            r.wf(),
            r.spec_width() == width,
            r.spec_height() == height,
            forall|x: int, y: int| r.in_range(x, y) ==> #[trigger] r.spec_at(x, y) == 0,
    {
        let n = width * height;
        let mut buffer: Vec<i64> = Vec::new();
        let mut k: usize = 0;
        while k < n
            invariant
                buffer.len() == k,
                k <= n,
                forall|t: int| 0 <= t < k ==> buffer[t] == 0i64,
            decreases n - k,
        {
            buffer.push(0);
            k = k + 1;
        }
        let r = HeightMap { width, height, buffer };
        proof {
            assert forall|x: int, y: int| r.in_range(x, y) implies #[trigger] r.spec_at(x, y)
                == 0 by {
                lemma_grid_index_bound(x, y, width as int, height as int);
            }
        }
        r
    }

    /// Field over a caller-supplied buffer.  A buffer whose length does not
    /// match the dimensions is a caller error and is excluded by
    /// precondition.
    pub fn new_with_buffer(width: usize, height: usize, buffer: Vec<i64>) -> (r: Self)
        requires
            buffer.len() == width * height,
        ensures
            r.wf(),
            r.spec_width() == width,
            r.spec_height() == height,
            forall|x: int, y: int|
                r.in_range(x, y) ==> #[trigger] r.spec_at(x, y) == buffer[x * height + y],
    {
        HeightMap { width, height, buffer }
    }

    /// Bounds-checked read.  Out-of-range coordinates are a caller error and
    /// are excluded by precondition.
    pub fn get(&self, x: usize, y: usize) -> (r: i64)
        requires
            self.wf(),
            self.in_range(x as int, y as int),
        ensures
            r == self.spec_at(x as int, y as int),
    {
        self.unsafe_get(x, y)
    }

    /// Unchecked read: the caller has already established that `(x, y)` is in
    /// range.
    pub fn unsafe_get(&self, x: usize, y: usize) -> (r: i64)
        requires
            self.wf(),
            self.in_range(x as int, y as int),
        ensures
            r == self.spec_at(x as int, y as int),
    {
        proof {
            lemma_grid_index_bound(x as int, y as int, self.spec_width(), self.spec_height());
        }
        self.buffer[x * self.height + y]
    }

    /// Total read: the stored sample in range, the caller-supplied fallback
    /// outside.
    pub fn get_default(&self, x: usize, y: usize, fallback: i64) -> (r: i64)
        requires
            self.wf(),
        ensures
            r == if self.in_range(x as int, y as int) {
                self.spec_at(x as int, y as int)
            } else {
                fallback as int
            },
    {
        if x < self.width && y < self.height {
            self.unsafe_get(x, y)
        } else {
            fallback
        }
    }

    /// Bounds-checked write.
    pub fn set(&mut self, x: usize, y: usize, f: i64)
        requires
            old(self).wf(),
            old(self).in_range(x as int, y as int),
        ensures
            final(self).wf(),
            final(self).spec_width() == old(self).spec_width(),
            final(self).spec_height() == old(self).spec_height(),
            final(self).spec_at(x as int, y as int) == f,
            forall|x2: int, y2: int|
                old(self).in_range(x2, y2) && !(x2 == x && y2 == y)
                    ==> final(self).spec_at(x2, y2) == old(self).spec_at(x2, y2),
    {
        self.unsafe_set(x, y, f)
    }

    /// Unchecked write: the caller has already established that `(x, y)` is
    /// in range.  Only the named cell changes.
    pub fn unsafe_set(&mut self, x: usize, y: usize, f: i64)
        requires
            old(self).wf(),
            old(self).in_range(x as int, y as int),
        ensures
            final(self).wf(),
            final(self).spec_width() == old(self).spec_width(),
            final(self).spec_height() == old(self).spec_height(),
            final(self).spec_at(x as int, y as int) == f,
            forall|x2: int, y2: int|
                old(self).in_range(x2, y2) && !(x2 == x && y2 == y)
                    ==> final(self).spec_at(x2, y2) == old(self).spec_at(x2, y2),
    {
        proof {
            lemma_grid_index_bound(x as int, y as int, self.spec_width(), self.spec_height());
        }
        let slot = x * self.height + y;
        self.buffer.set(slot, f);
        proof {
            assert forall|x2: int, y2: int|
                old(self).in_range(x2, y2) && !(x2 == x && y2 == y)
                    implies final(self).spec_at(x2, y2) == old(self).spec_at(x2, y2) by {
                lemma_grid_index_bound(x2, y2, self.spec_width(), self.spec_height());
                if x2 * self.spec_height() + y2 == x as int * self.spec_height() + y as int {
                    lemma_grid_index_injective(x2, y2, x as int, y as int, self.spec_height());
                }
            }
        }
    }

    /// Height accessor.
    pub fn get_height(&self) -> (r: usize)
        ensures
            r == self.spec_height(),
    {
        self.height
    }

    /// Width accessor.
    pub fn get_width(&self) -> (r: usize)
        ensures
            r == self.spec_width(),
    {
        self.width
    }

    /// Ingest one raster sample: composite the pixel's luminance over the
    /// background's by the pixel's alpha and shift so opaque white reads `0`.
    pub fn set_from_rgba8(&mut self, x: usize, y: usize, pixel: [u8; 4], background: [u8; 3])
        requires
            old(self).wf(),
            old(self).in_range(x as int, y as int),
        ensures
            final(self).wf(),
            final(self).spec_width() == old(self).spec_width(),
            final(self).spec_height() == old(self).spec_height(),
            final(self).spec_at(x as int, y as int) == spec_ingest(
                spec_luma(pixel[0] as int, pixel[1] as int, pixel[2] as int),
                pixel[3] as int,
                spec_luma(background[0] as int, background[1] as int, background[2] as int),
            ),
            -SAMPLE_ONE <= final(self).spec_at(x as int, y as int) <= 0,
            forall|x2: int, y2: int|
                old(self).in_range(x2, y2) && !(x2 == x && y2 == y)
                    ==> final(self).spec_at(x2, y2) == old(self).spec_at(x2, y2),
    {
        let luma = rgb_to_luma8(pixel[0], pixel[1], pixel[2]);
        let alpha = pixel[3];
        let bg_luma = rgb_to_luma8(background[0], background[1], background[2]);
        proof {
            lemma_ingest_in_unit_range(luma as int, alpha as int, bg_luma as int);
        }
        let value: i64 = (luma as i64) * (alpha as i64) + (bg_luma as i64) * (255 - alpha as i64)
            - SAMPLE_ONE;
        self.set(x, y, value);
    }
}

/// Luminance of an 8-bit RGB sample, by the integer BT.709 weighting the
/// raster decoder uses for grayscale conversion.
pub fn rgb_to_luma8(r: u8, g: u8, b: u8) -> (l: u8)
    ensures
        l == spec_luma(r as int, g as int, b as int),
        0 <= l <= 255,
{
    let wide: u32 = 2126 * (r as u32) + 7152 * (g as u32) + 722 * (b as u32);
    (wide / 10000) as u8
}

/// An ingested sample always lies in the unit interval `[-SAMPLE_ONE, 0]`:
/// ingestion cannot produce a value outside the surface's normalized range.
pub proof fn lemma_ingest_in_unit_range(luma: int, alpha: int, background_luma: int)
    requires
        0 <= luma <= 255,
        0 <= alpha <= 255,
        0 <= background_luma <= 255,
    ensures
        -SAMPLE_ONE <= spec_ingest(luma, alpha, background_luma) <= 0,
{
    assert(luma * alpha + background_luma * (255 - alpha) <= 65025 && 0 <= luma * alpha
        + background_luma * (255 - alpha)) by (nonlinear_arith)
        requires
            0 <= luma <= 255,
            0 <= alpha <= 255,
            0 <= background_luma <= 255,
    ;
}

/// An opaque sample (alpha at its maximum) ingests to a value that does not
/// depend on the background it is composited over.
pub proof fn lemma_opaque_ingest_background_independent(luma: int, bg1: int, bg2: int)
    ensures
        spec_ingest(luma, 255, bg1) == spec_ingest(luma, 255, bg2),
{
}

/// One window sum of the max-plus correlation at output cell `(i, j)`: the
/// tool sample, read at the 180-degree-rotated window position, plus the
/// surface sample under it.
pub open spec fn conv_sum(f: HeightMap, g: HeightMap, i: int, j: int, x: int, y: int) -> int {
    g.spec_at(g.spec_width() - 1 - x, g.spec_height() - 1 - y) + f.spec_at(i + x, j + y)
}

/// `v` is the max-plus convolution of `f` by `g` at output cell `(i, j)`:
/// the maximum, seeded with the `NEG_INF` sentinel, over every window sum.
/// Such a value is unique (`lemma_max_plus_cell_unique`), so any two
/// producers of it agree exactly.
pub open spec fn is_max_plus_cell(f: HeightMap, g: HeightMap, i: int, j: int, v: int) -> bool {
    &&& NEG_INF <= v
    &&& forall|x: int, y: int|
        0 <= x < g.spec_width() && 0 <= y < g.spec_height() ==> #[trigger] conv_sum(
            f,
            g,
            i,
            j,
            x,
            y,
        ) <= v
    &&& (v == NEG_INF || exists|x: int, y: int|
        0 <= x < g.spec_width() && 0 <= y < g.spec_height() && v == #[trigger] conv_sum(
            f,
            g,
            i,
            j,
            x,
            y,
        ))
}

/// The max-plus convolution cell value is unique: any two values that both
/// satisfy `is_max_plus_cell` for the same inputs and cell coincide.
pub proof fn lemma_max_plus_cell_unique(
    f: HeightMap,
    g: HeightMap,
    i: int,
    j: int,
    v1: int,
    v2: int,
)
    requires
        is_max_plus_cell(f, g, i, j, v1),
        is_max_plus_cell(f, g, i, j, v2),
    ensures
        v1 == v2,
{
    if v1 != NEG_INF {
        let (x, y) = choose|x: int, y: int|
            0 <= x < g.spec_width() && 0 <= y < g.spec_height() && v1 == conv_sum(f, g, i, j, x, y);
        assert(conv_sum(f, g, i, j, x, y) <= v2);
    }
    if v2 != NEG_INF {
        let (x, y) = choose|x: int, y: int|
            0 <= x < g.spec_width() && 0 <= y < g.spec_height() && v2 == conv_sum(f, g, i, j, x, y);
        assert(conv_sum(f, g, i, j, x, y) <= v1);
    }
}

/// Sequential/parallel equivalence: two convolution outputs over the same
/// inputs agree at every cell, whatever order their cells were produced in.
pub proof fn lemma_sequential_parallel_agree(
    f: HeightMap,
    g: HeightMap,
    out1: HeightMap,
    out2: HeightMap,
)
    requires
        out1.spec_width() == out2.spec_width(),
        out1.spec_height() == out2.spec_height(),
        forall|i: int, j: int|
            out1.in_range(i, j) ==> #[trigger] is_max_plus_cell(f, g, i, j, out1.spec_at(i, j)),
        forall|i: int, j: int|
            out2.in_range(i, j) ==> #[trigger] is_max_plus_cell(f, g, i, j, out2.spec_at(i, j)),
    ensures
        forall|i: int, j: int|
            out1.in_range(i, j) ==> #[trigger] out1.spec_at(i, j) == out2.spec_at(i, j),
{
    assert forall|i: int, j: int| out1.in_range(i, j) implies #[trigger] out1.spec_at(i, j)
        == out2.spec_at(i, j) by {
        assert(is_max_plus_cell(f, g, i, j, out1.spec_at(i, j)));
        assert(is_max_plus_cell(f, g, i, j, out2.spec_at(i, j)));
        lemma_max_plus_cell_unique(f, g, i, j, out1.spec_at(i, j), out2.spec_at(i, j));
    }
}

impl HeightMap {
    /// Running maximum over the window of `other` placed at output cell
    /// `(i, j)` of `self`, seeded with the `NEG_INF` sentinel.
    fn get_max_plus_convolve_at(&self, other: &Self, i: usize, j: usize) -> (v: i64)
        requires
            self.wf(),
            other.wf(),
            self.bounded(),
            other.bounded(),
            other.spec_width() >= 1,
            other.spec_height() >= 1,
            i + other.spec_width() <= self.spec_width(),
            j + other.spec_height() <= self.spec_height(),
        ensures
            is_max_plus_cell(*self, *other, i as int, j as int, v as int),
            NEG_INF <= v <= 2 * SAMPLE_MAX,
    {
        let gw = other.width;
        let gh = other.height;
        let mut m: i64 = NEG_INF;
        let mut x: usize = 0;
        while x < gw
            invariant
                self.wf(),
                other.wf(),
                self.bounded(),
                other.bounded(),
                gw == other.spec_width(),
                gh == other.spec_height(),
                gw >= 1,
                gh >= 1,
                i + gw <= self.spec_width(),
                j + gh <= self.spec_height(),
                0 <= x <= gw,
                NEG_INF <= m <= 2 * SAMPLE_MAX,
                forall|x2: int, y2: int|
                    0 <= x2 < x && 0 <= y2 < gh ==> #[trigger] conv_sum(
                        *self,
                        *other,
                        i as int,
                        j as int,
                        x2,
                        y2,
                    ) <= m,
                m == NEG_INF || exists|x2: int, y2: int|
                    0 <= x2 < x && 0 <= y2 < gh && m == #[trigger] conv_sum(
                        *self,
                        *other,
                        i as int,
                        j as int,
                        x2,
                        y2,
                    ),
            decreases gw - x,
        {
            let mut y: usize = 0;
            while y < gh
                invariant
                    self.wf(),
                    other.wf(),
                    self.bounded(),
                    other.bounded(),
                    gw == other.spec_width(),
                    gh == other.spec_height(),
                    gw >= 1,
                    gh >= 1,
                    i + gw <= self.spec_width(),
                    j + gh <= self.spec_height(),
                    0 <= x < gw,
                    0 <= y <= gh,
                    NEG_INF <= m <= 2 * SAMPLE_MAX,
                    forall|x2: int, y2: int|
                        0 <= x2 && 0 <= y2 < gh && (x2 < x || (x2 == x && y2 < y))
                            ==> #[trigger] conv_sum(*self, *other, i as int, j as int, x2, y2)
                            <= m,
                    m == NEG_INF || exists|x2: int, y2: int|
                        0 <= x2 && 0 <= y2 < gh && (x2 < x || (x2 == x && y2 < y)) && m
                            == #[trigger] conv_sum(*self, *other, i as int, j as int, x2, y2),
                decreases gh - y,
            {
                let gv = other.unsafe_get(gw - 1 - x, gh - 1 - y);
                let fv = self.unsafe_get(i + x, j + y);
                let val = gv + fv;
                proof {
                    assert(conv_sum(*self, *other, i as int, j as int, x as int, y as int)
                        == val as int);
                }
                if val > m {
                    m = val;
                }
                y = y + 1;
            }
            x = x + 1;
        }
        m
    }

    /// Fill `self` with the max-plus convolution of surface `f` by tool
    /// impulse `g`: at each cell the running maximum, seeded with the same
    /// `NEG_INF` sentinel at every cell, of the rotated-window sums.  The
    /// destination must be sized exactly as the convolution result and is
    /// disjoint from both inputs.
    pub fn set_max_plus_convolve(&mut self, f: &Self, g: &Self)
        requires
            old(self).wf(),
            f.wf(),
            g.wf(),
            f.bounded(),
            g.bounded(),
            g.spec_width() >= 1,
            g.spec_height() >= 1,
            old(self).spec_width() == f.spec_width() + 1 - g.spec_width(),
            old(self).spec_height() == f.spec_height() + 1 - g.spec_height(),
        ensures
            final(self).wf(),
            final(self).spec_width() == old(self).spec_width(),
            final(self).spec_height() == old(self).spec_height(),
            forall|i: int, j: int|
                final(self).in_range(i, j) ==> #[trigger] is_max_plus_cell(
                    *f,
                    *g,
                    i,
                    j,
                    final(self).spec_at(i, j),
                ),
    {
        let w = self.width;
        let h = self.height;
        let mut i: usize = 0;
        while i < w
            invariant
                self.wf(),
                f.wf(),
                g.wf(),
                f.bounded(),
                g.bounded(),
                g.spec_width() >= 1,
                g.spec_height() >= 1,
                w == self.spec_width(),
                h == self.spec_height(),
                w == f.spec_width() + 1 - g.spec_width(),
                h == f.spec_height() + 1 - g.spec_height(),
                0 <= i <= w,
                forall|i2: int, j2: int|
                    0 <= i2 < i && 0 <= j2 < h ==> #[trigger] is_max_plus_cell(
                        *f,
                        *g,
                        i2,
                        j2,
                        self.spec_at(i2, j2),
                    ),
            decreases w - i,
        {
            let mut j: usize = 0;
            while j < h
                invariant
                    self.wf(),
                    f.wf(),
                    g.wf(),
                    f.bounded(),
                    g.bounded(),
                    g.spec_width() >= 1,
                    g.spec_height() >= 1,
                    w == self.spec_width(),
                    h == self.spec_height(),
                    w == f.spec_width() + 1 - g.spec_width(),
                    h == f.spec_height() + 1 - g.spec_height(),
                    0 <= i < w,
                    0 <= j <= h,
                    forall|i2: int, j2: int|
                        0 <= i2 && 0 <= j2 < h && (i2 < i || (i2 == i && j2 < j))
                            ==> #[trigger] is_max_plus_cell(*f, *g, i2, j2, self.spec_at(i2, j2)),
                decreases h - j,
            {
                let v = f.get_max_plus_convolve_at(g, i, j);
                self.unsafe_set(i, j, v);
                j = j + 1;
            }
            i = i + 1;
        }
    }

    /// Max-plus convolution of `self` by `other` into a freshly allocated
    /// field of size `(W - w + 1) x (H - h + 1)` for inputs of size `W x H`
    /// and `w x h`.
    pub fn get_max_plus_convolve(&self, other: &Self) -> (out: Self)
        requires
            self.wf(),
            other.wf(),
            self.bounded(),
            other.bounded(),
            other.spec_width() >= 1,
            other.spec_height() >= 1,
            other.spec_width() <= self.spec_width() + 1,
            other.spec_height() <= self.spec_height() + 1,
        ensures
            out.wf(),
            out.spec_width() == self.spec_width() + 1 - other.spec_width(),
            out.spec_height() == self.spec_height() + 1 - other.spec_height(),
            forall|i: int, j: int|
                out.in_range(i, j) ==> #[trigger] is_max_plus_cell(
                    *self,
                    *other,
                    i,
                    j,
                    out.spec_at(i, j),
                ),
    {
        let w = self.width - (other.width - 1);
        let h = self.height - (other.height - 1);
        proof {
            lemma_sub_grid_fits(
                w as int,
                h as int,
                self.spec_width(),
                self.spec_height(),
                self.buffer.len() as int,
            );
        }
        let mut out = Self::new(w, h);
        out.set_max_plus_convolve(self, other);
        out
    }
}

/// The convolution cell a linear output slot stands for: slot `addr` of an
/// output of height `out_height` is the cell `(addr / out_height,
/// addr % out_height)`.
fn get_max_plus_convolve_at_addr(
    f: &HeightMap,
    g: &HeightMap,
    out_height: usize,
    addr: usize,
) -> (v: i64)
    requires
        f.wf(),
        g.wf(),
        f.bounded(),
        g.bounded(),
        g.spec_width() >= 1,
        g.spec_height() >= 1,
        out_height == f.spec_height() + 1 - g.spec_height(),
        out_height >= 1,
        addr < (f.spec_width() + 1 - g.spec_width()) * out_height,
    ensures
        is_max_plus_cell(*f, *g, addr as int / out_height as int, addr as int % out_height as int, v as int),
{
    let i = addr / out_height;
    let j = addr % out_height;
    proof {
        let w = f.spec_width() + 1 - g.spec_width();
        let h = out_height as int;
        vstd::arithmetic::div_mod::lemma_fundamental_div_mod(addr as int, h);
        vstd::arithmetic::div_mod::lemma_mod_bound(addr as int, h);
        assert((addr as int) / h < w) by (nonlinear_arith)
            requires
                h >= 1,
                (addr as int) < w * h,
                addr as int == h * ((addr as int) / h) + ((addr as int) % h),
                0 <= (addr as int) % h < h,
        ;
    }
    f.get_max_plus_convolve_at(g, i, j)
}

/// Relies on rayon's `par_iter_mut`, `enumerate` and `for_each` over the
/// output buffer: the closure is applied to every slot exactly once, is
/// handed that slot's own index, and writes nothing but its own slot.  The
/// value written is computed by a verified function of the two read-only
/// input fields and the slot's index alone.
#[verifier::external_body]
fn par_fill_max_plus(out: &mut HeightMap, f: &HeightMap, g: &HeightMap)
    requires
        old(out).wf(),
        f.wf(),
        g.wf(),
        f.bounded(),
        g.bounded(),
        g.spec_width() >= 1,
        g.spec_height() >= 1,
        old(out).spec_width() == f.spec_width() + 1 - g.spec_width(),
        old(out).spec_height() == f.spec_height() + 1 - g.spec_height(),
    ensures
        final(out).wf(),
        final(out).spec_width() == old(out).spec_width(),
        final(out).spec_height() == old(out).spec_height(),
        forall|i: int, j: int|
            final(out).in_range(i, j) ==> #[trigger] is_max_plus_cell(
                *f,
                *g,
                i,
                j,
                final(out).spec_at(i, j),
            ),
{
    let h = out.height;
    rayon::iter::ParallelIterator::for_each(
        rayon::iter::IndexedParallelIterator::enumerate(
            rayon::iter::IntoParallelRefMutIterator::par_iter_mut(&mut out.buffer),
        ),
        |(addr, slot): (usize, &mut i64)| {
            *slot = get_max_plus_convolve_at_addr(f, g, h, addr);
        },
    );
}

impl HeightMap {
    /// Parallel max-plus convolution into `self`: the output slots are
    /// partitioned across workers, each cell written exactly once from the
    /// same per-cell formula the sequential variant uses, so the two agree
    /// exactly (`lemma_sequential_parallel_agree`).
    pub fn par_set_max_plus_convolve(&mut self, f: &Self, g: &Self)
        requires
            old(self).wf(),
            f.wf(),
            g.wf(),
            f.bounded(),
            g.bounded(),
            g.spec_width() >= 1,
            g.spec_height() >= 1,
            old(self).spec_width() == f.spec_width() + 1 - g.spec_width(),
            old(self).spec_height() == f.spec_height() + 1 - g.spec_height(),
        ensures
            final(self).wf(),
            final(self).spec_width() == old(self).spec_width(),
            final(self).spec_height() == old(self).spec_height(),
            forall|i: int, j: int|
                final(self).in_range(i, j) ==> #[trigger] is_max_plus_cell(
                    *f,
                    *g,
                    i,
                    j,
                    final(self).spec_at(i, j),
                ),
    {
        par_fill_max_plus(self, f, g);
    }

    /// Parallel max-plus convolution into a freshly allocated field; same
    /// contract as `get_max_plus_convolve`.
    pub fn par_get_max_plus_convolve(&self, other: &Self) -> (out: Self)
        requires
            self.wf(),
            other.wf(),
            self.bounded(),
            other.bounded(),
            other.spec_width() >= 1,
            other.spec_height() >= 1,
            other.spec_width() <= self.spec_width() + 1,
            other.spec_height() <= self.spec_height() + 1,
        ensures
            out.wf(),
            out.spec_width() == self.spec_width() + 1 - other.spec_width(),
            out.spec_height() == self.spec_height() + 1 - other.spec_height(),
            forall|i: int, j: int|
                out.in_range(i, j) ==> #[trigger] is_max_plus_cell(
                    *self,
                    *other,
                    i,
                    j,
                    out.spec_at(i, j),
                ),
    {
        let w = self.width - (other.width - 1);
        let h = self.height - (other.height - 1);
        proof {
            lemma_sub_grid_fits(
                w as int,
                h as int,
                self.spec_width(),
                self.spec_height(),
                self.buffer.len() as int,
            );
        }
        let mut out = Self::new(w, h);
        out.par_set_max_plus_convolve(self, other);
        out
    }
}

/// 8-bit gray level of a sample rendered over the range `[min, max]`: the
/// sample is mapped linearly, scaled to `[0, 255]` and clamped.  This mapping
/// is part of the field's output contract; the raster encoder only persists
/// the bytes.
pub open spec fn spec_gray(v: int, min: int, max: int) -> int {
    if v <= min {
        0
    } else if v >= max {
        255
    } else {
        (v - min) * 255 / (max - min)
    }
}

/// The gray level of a sample strictly between `min` and `max` lies strictly
/// inside `[0, 255]`.
proof fn lemma_gray_in_range(v: int, min: int, max: int)
    requires
        min < v < max,
    ensures
        0 <= (v - min) * 255 / (max - min) < 255,
{
    let num = (v - min) * 255;
    let den = max - min;
    assert(0 <= num && num <= (den - 1) * 255) by (nonlinear_arith)
        requires
            num == (v - min) * 255,
            den == max - min,
            min < v < max,
    ;
    vstd::arithmetic::div_mod::lemma_fundamental_div_mod(num, den);
    vstd::arithmetic::div_mod::lemma_mod_bound(num, den);
    assert(num / den < 255) by (nonlinear_arith)
        requires
            den >= 1,
            num == den * (num / den) + num % den,
            0 <= num % den < den,
            num <= (den - 1) * 255,
    ;
    assert(num / den >= 0) by (nonlinear_arith)
        requires
            den >= 1,
            num == den * (num / den) + num % den,
            0 <= num % den < den,
            num >= 0,
    ;
}

impl HeightMap {
    /// Number of cells; equals the buffer's length.
    pub fn area(&self) -> (r: usize)
        requires
            self.wf(),
        ensures
            r == self.spec_width() * self.spec_height(),
    {
        self.buffer.len()
    }

    /// Field ingested from a raster of `width * height` RGBA samples (cell
    /// `(x, y)` at slot `x * height + y`), each composited over the given
    /// background: the exact ingestion contract of `set_from_rgba8` at every
    /// cell.  The result is sized exactly as the raster and ready for the
    /// convolution engine.
    pub fn from_rgba8_samples(
        width: usize,
        height: usize,
        samples: &Vec<[u8; 4]>,
        background: [u8; 3],
    ) -> (r: Self)
        requires
            samples.len() == width * height,
        ensures
            r.wf(),
            r.spec_width() == width,
            r.spec_height() == height,
            forall|x: int, y: int|
                r.in_range(x, y) ==> #[trigger] r.spec_at(x, y) == spec_ingest(
                    spec_luma(
                        samples[x * height + y][0] as int,
                        samples[x * height + y][1] as int,
                        samples[x * height + y][2] as int,
                    ),
                    samples[x * height + y][3] as int,
                    spec_luma(background[0] as int, background[1] as int, background[2] as int),
                ),
            forall|x: int, y: int|
                r.in_range(x, y) ==> -SAMPLE_ONE <= #[trigger] r.spec_at(x, y) <= 0,
            r.bounded(),
    {
        let mut r = Self::new(width, height);
        let mut x: usize = 0;
        while x < width
            invariant
                r.wf(),
                r.spec_width() == width,
                r.spec_height() == height,
                samples.len() == width * height,
                0 <= x <= width,
                forall|x2: int, y2: int|
                    0 <= x2 < x && 0 <= y2 < height ==> #[trigger] r.spec_at(x2, y2)
                        == spec_ingest(
                        spec_luma(
                            samples[x2 * height + y2][0] as int,
                            samples[x2 * height + y2][1] as int,
                            samples[x2 * height + y2][2] as int,
                        ),
                        samples[x2 * height + y2][3] as int,
                        spec_luma(background[0] as int, background[1] as int, background[2] as int),
                    ),
                forall|x2: int, y2: int|
                    0 <= x2 < x && 0 <= y2 < height ==> -SAMPLE_ONE <= #[trigger] r.spec_at(
                        x2,
                        y2,
                    ) <= 0,
            decreases width - x,
        {
            let mut y: usize = 0;
            while y < height
                invariant
                    r.wf(),
                    r.spec_width() == width,
                    r.spec_height() == height,
                    samples.len() == width * height,
                    0 <= x < width,
                    0 <= y <= height,
                    forall|x2: int, y2: int|
                        0 <= x2 && 0 <= y2 < height && (x2 < x || (x2 == x && y2 < y))
                            ==> #[trigger] r.spec_at(x2, y2) == spec_ingest(
                            spec_luma(
                                samples[x2 * height + y2][0] as int,
                                samples[x2 * height + y2][1] as int,
                                samples[x2 * height + y2][2] as int,
                            ),
                            samples[x2 * height + y2][3] as int,
                            spec_luma(
                                background[0] as int,
                                background[1] as int,
                                background[2] as int,
                            ),
                        ),
                    forall|x2: int, y2: int|
                        0 <= x2 && 0 <= y2 < height && (x2 < x || (x2 == x && y2 < y))
                            ==> -SAMPLE_ONE <= #[trigger] r.spec_at(x2, y2) <= 0,
                decreases height - y,
            {
                proof {
                    lemma_grid_index_bound(x as int, y as int, width as int, height as int);
                }
                let px = samples[x * height + y];
                r.set_from_rgba8(x, y, px, background);
                y = y + 1;
            }
            x = x + 1;
        }
        r
    }

    /// Render every sample to an 8-bit gray level over `[min, max]`, in the
    /// field's own slot order.
    pub fn to_gray8(&self, min: i64, max: i64) -> (r: Vec<u8>)
        requires
            self.wf(),
            min < max,
        ensures
            r.len() == self.spec_width() * self.spec_height(),
            forall|x: int, y: int|
                self.in_range(x, y) ==> r[x * self.spec_height() + y] == spec_gray(
                    #[trigger] self.spec_at(x, y),
                    min as int,
                    max as int,
                ),
    {
        let w = self.width;
        let h = self.height;
        let mut r: Vec<u8> = Vec::new();
        let mut x: usize = 0;
        while x < w
            invariant
                self.wf(),
                w == self.spec_width(),
                h == self.spec_height(),
                min < max,
                0 <= x <= w,
                r.len() == x * h,
                forall|x2: int, y2: int|
                    0 <= x2 < x && 0 <= y2 < h ==> r[x2 * h + y2] == spec_gray(
                        #[trigger] self.spec_at(x2, y2),
                        min as int,
                        max as int,
                    ),
            decreases w - x,
        {
            let mut y: usize = 0;
            while y < h
                invariant
                    self.wf(),
                    w == self.spec_width(),
                    h == self.spec_height(),
                    min < max,
                    0 <= x < w,
                    0 <= y <= h,
                    r.len() == x * h + y,
                    forall|x2: int, y2: int|
                        0 <= x2 && 0 <= y2 < h && (x2 < x || (x2 == x && y2 < y)) ==> r[x2 * h
                            + y2] == spec_gray(
                            #[trigger] self.spec_at(x2, y2),
                            min as int,
                            max as int,
                        ),
                decreases h - y,
            {
                let v = self.unsafe_get(x, y);
                let gray: u8 = if v <= min {
                    0
                } else if v >= max {
                    255
                } else {
                    proof {
                        lemma_gray_in_range(v as int, min as int, max as int);
                    }
                    let num: u128 = ((v as i128 - min as i128) * 255) as u128;
                    let den: u128 = (max as i128 - min as i128) as u128;
                    (num / den) as u8
                };
                r.push(gray);
                proof {
                    assert forall|x2: int, y2: int|
                        0 <= x2 && 0 <= y2 < h && (x2 < x || (x2 == x && y2 < y + 1)) implies r[x2
                        * h + y2] == spec_gray(self.spec_at(x2, y2), min as int, max as int) by {
                        if x2 == x && y2 == y {
                            assert(r[x2 * h + y2] == gray);
                        } else {
                            crate::grid::lemma_grid_index_mono(x2, y2, x as int, y as int, h as int);
                        }
                    }
                }
                y = y + 1;
            }
            proof {
                assert(x * h + h == (x + 1) * h) by (nonlinear_arith);
            }
            x = x + 1;
        }
        r
    }
}

/// A grid no larger than an allocated one in either axis has no more slots,
/// so its slot count also fits in `usize`.
proof fn lemma_sub_grid_fits(w: int, h: int, fw: int, fh: int, len: int)
    requires
        0 <= w <= fw,
        0 <= h <= fh,
        len == fw * fh,
        len <= usize::MAX,
    ensures
        w * h <= usize::MAX,
{
    assert(w * h <= fw * fh) by (nonlinear_arith)
        requires
            0 <= w <= fw,
            0 <= h <= fh,
    ;
}

} // verus!
