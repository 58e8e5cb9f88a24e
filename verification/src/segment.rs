use vstd::prelude::*;

use crate::bit_map::BitMap;
use crate::height_map::HeightMap;

verus! {

/// Largest coordinate magnitude the intersection solver accepts: keeps every
/// determinant and numerator it forms inside `i64`.
pub const COORD_MAX: i64 = 0x4000_0000;

/// Planar vector with integer coordinates.  Contour extraction works in
/// half-pixel units: there the `Vec2` `(u, v)` stands for the point
/// `(u / 2, v / 2)` of the pixel grid, so edge midpoints are exact.
#[derive(Clone, Copy, Debug, PartialEq, Eq, Structural)]
pub struct Vec2 {
    pub x: i64,
    pub y: i64,
}

impl Vec2 {
    /// Both coordinates lie within the solver's working range.
    pub open spec fn spec_bounded(&self) -> bool {
        -COORD_MAX <= self.x <= COORD_MAX && -COORD_MAX <= self.y <= COORD_MAX
    }

    /// Create a new vector from its two coordinates.
    pub fn new(x: i64, y: i64) -> (r: Self)
        ensures
            r.x == x,
            r.y == y,
    {
        Vec2 { x, y }
    }

    /// The coordinate along the x-axis.
    pub fn get_x(&self) -> (r: i64)
        ensures
            r == self.x,
    {
        self.x
    }

    /// The coordinate along the y-axis.
    pub fn get_y(&self) -> (r: i64)
        ensures
            r == self.y,
    {
        self.y
    }

    /// Componentwise sum.
    pub fn add(self, other: Self) -> (r: Self)
        requires
            i64::MIN <= self.x + other.x <= i64::MAX,
            i64::MIN <= self.y + other.y <= i64::MAX,
        ensures
            r.x == self.x + other.x,
            r.y == self.y + other.y,
    {
        Vec2 { x: self.x + other.x, y: self.y + other.y }
    }

    /// Componentwise difference.
    pub fn sub(self, other: Self) -> (r: Self)
        requires
            i64::MIN <= self.x - other.x <= i64::MAX,
            i64::MIN <= self.y - other.y <= i64::MAX,
        ensures
            r.x == self.x - other.x,
            r.y == self.y - other.y,
    {
        Vec2 { x: self.x - other.x, y: self.y - other.y }
    }

    /// Componentwise negation.
    pub fn neg(self) -> (r: Self)
        requires
            self.x != i64::MIN,
            self.y != i64::MIN,
        ensures
            r.x == -self.x,
            r.y == -self.y,
    {
        Vec2 { x: -self.x, y: -self.y }
    }

    /// Scaling by an integer factor.
    pub fn mul(self, other: i64) -> (r: Self)
        requires
            i64::MIN <= self.x * other <= i64::MAX,
            i64::MIN <= self.y * other <= i64::MAX,
        ensures
            r.x == self.x * other,
            r.y == self.y * other,
    {
        Vec2 { x: self.x * other, y: self.y * other }
    }

    /// Dot product.
    pub fn dot(self, other: Self) -> (r: i64)
        requires
            i64::MIN <= self.x * other.x <= i64::MAX,
            i64::MIN <= self.y * other.y <= i64::MAX,
            i64::MIN <= self.x * other.x + self.y * other.y <= i64::MAX,
        ensures
            r == self.x * other.x + self.y * other.y,
    {
        self.x * other.x + self.y * other.y
    }
}

/// A half line: a source and a non-zero direction.  The zero direction is a
/// construction-contract violation and is excluded by precondition.
#[derive(Clone, Copy, Debug, PartialEq, Eq, Structural)]
pub struct HalfLine {
    pub src: Vec2,
    pub dir: Vec2,
}

/// A segment: a source and a target that must differ (no degenerate,
/// zero-length segment can be constructed).
#[derive(Clone, Copy, Debug, PartialEq, Eq, Structural)]
pub struct Segment {
    pub src: Vec2,
    pub tgt: Vec2,
}

impl Segment {
    /// Create a segment from its two distinct endpoints.
    pub fn new(source: Vec2, target: Vec2) -> (r: Self)
        requires
            source != target,
        ensures
            r.src == source,
            r.tgt == target,
    {
        Segment { src: source, tgt: target }
    }

    /// The source endpoint.
    pub fn source(&self) -> (r: Vec2)
        ensures
            r == self.src,
    {
        self.src
    }

    /// The target endpoint.
    pub fn target(&self) -> (r: Vec2)
        ensures
            r == self.tgt,
    {
        self.tgt
    }

    /// The half line through this segment, directed from source to target.
    pub fn to_half_line(&self) -> (r: HalfLine)
        requires
            i64::MIN <= self.tgt.x - self.src.x <= i64::MAX,
            i64::MIN <= self.tgt.y - self.src.y <= i64::MAX,
        ensures
            r.src == self.src,
            r.dir.x == self.tgt.x - self.src.x,
            r.dir.y == self.tgt.y - self.src.y,
    {
        HalfLine { src: self.src, dir: self.tgt.sub(self.src) }
    }
}

/// Exact rational parameters of an intersection: `X = x_num / den` on the
/// first line and `Y = y_num / den` on the second, with `den` the system's
/// determinant.
#[derive(Clone, Copy, Debug, PartialEq, Eq, Structural)]
pub struct IntersectionParams {
    pub x_num: i64,
    pub y_num: i64,
    pub den: i64,
}

/// Result of a found intersection: either the two sources coincide (within
/// the tolerance) and the shared origin is returned directly, or the solved
/// parameter pair is returned — the point itself is recovered by the caller
/// as `src + dir * (x_num / den)`.
#[derive(Clone, Copy, Debug, PartialEq, Eq, Structural)]
pub enum PlanIntersection {
    Coincident(Vec2),
    Params(IntersectionParams),
}

/// `a` and `b` agree within the absolute tolerance `eps`.
pub open spec fn spec_eps_eq(a: int, b: int, eps: int) -> bool {
    -eps <= a - b <= eps
}

/// Determinant of the 2x2 system `X * dir1 - Y * dir2 = src2 - src1`.
pub open spec fn spec_det(l1: HalfLine, l2: HalfLine) -> int {
    -l1.dir.x * l2.dir.y + l2.dir.x * l1.dir.y
}

/// Cramer numerator of the first parameter.
pub open spec fn spec_x_num(l1: HalfLine, l2: HalfLine) -> int {
    -l2.dir.y * (l2.src.x - l1.src.x) + l2.dir.x * (l2.src.y - l1.src.y)
}

/// Cramer numerator of the second parameter.
pub open spec fn spec_y_num(l1: HalfLine, l2: HalfLine) -> int {
    -l1.dir.y * (l2.src.x - l1.src.x) + l1.dir.x * (l2.src.y - l1.src.y)
}

/// `p` solves the intersection system of `l1` and `l2` exactly: with
/// `X = x_num / den` and `Y = y_num / den`, `X * dir1 - Y * dir2` equals
/// `src2 - src1`, written here cross-multiplied by `den`.
pub open spec fn spec_solves(l1: HalfLine, l2: HalfLine, p: IntersectionParams) -> bool {
    &&& p.den != 0
    &&& l1.dir.x * p.x_num - l2.dir.x * p.y_num == p.den * (l2.src.x - l1.src.x)
    &&& l1.dir.y * p.x_num - l2.dir.y * p.y_num == p.den * (l2.src.y - l1.src.y)
}

/// A product of values bounded by `ma` and `mb` is bounded by `ma * mb`.
proof fn lemma_mul_bound(a: int, b: int, ma: int, mb: int)
    requires
        -ma <= a <= ma,
        -mb <= b <= mb,
        0 <= ma,
        0 <= mb,
    ensures
        -(ma * mb) <= a * b <= ma * mb,
{
    assert(-(ma * mb) <= a * b <= ma * mb) by (nonlinear_arith)
        requires
            -ma <= a <= ma,
            -mb <= b <= mb,
            0 <= ma,
            0 <= mb,
    ;
}

/// Cramer's rule: the numerators and determinant of the 2x2 system satisfy
/// the system's two equations when cross-multiplied by the determinant.
#[verifier::rlimit(100)]
proof fn lemma_cramer(d1x: int, d1y: int, d2x: int, d2y: int, bx: int, by: int)
    ensures
        d1x * (-d2y * bx + d2x * by) - d2x * (-d1y * bx + d1x * by) == (-d1x * d2y + d2x * d1y)
            * bx,
        d1y * (-d2y * bx + d2x * by) - d2y * (-d1y * bx + d1x * by) == (-d1x * d2y + d2x * d1y)
            * by,
{
    assert(d1x * (-d2y * bx + d2x * by) - d2x * (-d1y * bx + d1x * by) == (-d1x * d2y + d2x * d1y)
        * bx) by (nonlinear_arith);
    assert(d1y * (-d2y * bx + d2x * by) - d2y * (-d1y * bx + d1x * by) == (-d1x * d2y + d2x * d1y)
        * by) by (nonlinear_arith);
}

/// The solved parameters name the same point on both lines: cross-multiplied
/// by the denominator, `src1 + dir1 * X` equals `src2 + dir2 * Y`
/// componentwise.
pub proof fn lemma_intersection_point_equal(l1: HalfLine, l2: HalfLine, p: IntersectionParams)
    requires
        spec_solves(l1, l2, p),
    ensures
        p.den * l1.src.x + l1.dir.x * p.x_num == p.den * l2.src.x + l2.dir.x * p.y_num,
        p.den * l1.src.y + l1.dir.y * p.x_num == p.den * l2.src.y + l2.dir.y * p.y_num,
{
    assert(p.den * l1.src.x + p.den * (l2.src.x - l1.src.x) == p.den * l2.src.x)
        by (nonlinear_arith);
    assert(p.den * l1.src.y + p.den * (l2.src.y - l1.src.y) == p.den * l2.src.y)
        by (nonlinear_arith);
}

/// `a` and `b` agree within the absolute tolerance `eps`.
fn eps_equal(a: i64, b: i64, eps: i64) -> (r: bool)
    requires
        -0x2000_0000_0000_0000 <= a <= 0x2000_0000_0000_0000,
        -0x2000_0000_0000_0000 <= b <= 0x2000_0000_0000_0000,
        0 <= eps <= 0x2000_0000_0000_0000,
    ensures
        r == spec_eps_eq(a as int, b as int, eps as int),
{
    a + eps >= b && b + eps >= a
}

impl HalfLine {
    /// The direction is non-zero, as construction demands.
    pub open spec fn spec_valid(&self) -> bool {
        !(self.dir.x == 0 && self.dir.y == 0)
    }

    /// Create a half line from a source and a direction; the direction must
    /// be non-zero.
    pub fn new(src: Vec2, dir: Vec2) -> (r: Self)
        requires
            !(dir.x == 0 && dir.y == 0),
        ensures
            r.src == src,
            r.dir == dir,
            r.spec_valid(),
    {
        HalfLine { src, dir }
    }

    /// The source of the half line.
    pub fn source(&self) -> (r: Vec2)
        ensures
            r == self.src,
    {
        self.src
    }

    /// The direction of the half line.
    pub fn direction(&self) -> (r: Vec2)
        ensures
            r == self.dir,
    {
        self.dir
    }

    /// Solve `X * self.dir - Y * line.dir = line.src - self.src` for the
    /// parameter pair `(X, Y)` by Cramer's rule, exactly:
    ///
    /// - if the two sources coincide within `eps` componentwise, the shared
    ///   origin is returned directly;
    /// - else, if the determinant is within `eps` of zero, the lines are
    ///   treated as parallel or degenerate and no intersection is returned —
    ///   a result distinct from a found intersection, not an error;
    /// - else the exact rational parameters are returned; they satisfy the
    ///   system (`spec_solves`), so both lines pass through the named point
    ///   (`lemma_intersection_point_equal`).
    ///
    /// `eps` is an absolute tolerance, applied componentwise.
    pub fn plan_intersection(&self, line: HalfLine, eps: i64) -> (r: Option<PlanIntersection>)
        requires
            self.src.spec_bounded(),
            self.dir.spec_bounded(),
            line.src.spec_bounded(),
            line.dir.spec_bounded(),
            self.spec_valid(),
            line.spec_valid(),
            0 <= eps <= COORD_MAX,
        ensures
            spec_eps_eq(line.src.x as int, self.src.x as int, eps as int) && spec_eps_eq(
                line.src.y as int,
                self.src.y as int,
                eps as int,
            ) ==> r == Some(PlanIntersection::Coincident(self.src)),
            !(spec_eps_eq(line.src.x as int, self.src.x as int, eps as int) && spec_eps_eq(
                line.src.y as int,
                self.src.y as int,
                eps as int,
            )) && spec_eps_eq(spec_det(*self, line), 0, eps as int) ==> r is None,
            !(spec_eps_eq(line.src.x as int, self.src.x as int, eps as int) && spec_eps_eq(
                line.src.y as int,
                self.src.y as int,
                eps as int,
            )) && !spec_eps_eq(spec_det(*self, line), 0, eps as int) ==> (r matches Some(
                PlanIntersection::Params(p),
            ) && p.x_num == spec_x_num(*self, line) && p.y_num == spec_y_num(*self, line) && p.den
                == spec_det(*self, line) && spec_solves(*self, line, p)),
    {
        let bx = line.src.x - self.src.x;
        let by = line.src.y - self.src.y;
        if eps_equal(bx, 0, eps) && eps_equal(by, 0, eps) {
            return Some(PlanIntersection::Coincident(self.src));
        }
        proof {
            lemma_mul_bound(self.dir.x as int, line.dir.y as int, COORD_MAX as int, COORD_MAX as int);
            lemma_mul_bound(line.dir.x as int, self.dir.y as int, COORD_MAX as int, COORD_MAX as int);
            lemma_mul_bound(line.dir.y as int, bx as int, COORD_MAX as int, 2 * COORD_MAX as int);
            lemma_mul_bound(line.dir.x as int, by as int, COORD_MAX as int, 2 * COORD_MAX as int);
            lemma_mul_bound(self.dir.y as int, bx as int, COORD_MAX as int, 2 * COORD_MAX as int);
            lemma_mul_bound(self.dir.x as int, by as int, COORD_MAX as int, 2 * COORD_MAX as int);
        }
        let det = line.dir.x * self.dir.y - self.dir.x * line.dir.y;
        proof {
            assert(det as int == spec_det(*self, line)) by (nonlinear_arith)
                requires
                    det as int == line.dir.x * self.dir.y - self.dir.x * line.dir.y,
                    spec_det(*self, line) == -self.dir.x * line.dir.y + line.dir.x * self.dir.y,
            ;
        }
        if eps_equal(det, 0, eps) {
            return None;
        }
        let x_num = line.dir.x * by - line.dir.y * bx;
        let y_num = self.dir.x * by - self.dir.y * bx;
        proof {
            assert(x_num as int == spec_x_num(*self, line) && y_num as int == spec_y_num(
                *self,
                line,
            )) by (nonlinear_arith)
                requires
                    x_num as int == line.dir.x * by - line.dir.y * bx,
                    y_num as int == self.dir.x * by - self.dir.y * bx,
                    bx as int == line.src.x - self.src.x,
                    by as int == line.src.y - self.src.y,
                    spec_x_num(*self, line) == -line.dir.y * (line.src.x - self.src.x)
                        + line.dir.x * (line.src.y - self.src.y),
                    spec_y_num(*self, line) == -self.dir.y * (line.src.x - self.src.x)
                        + self.dir.x * (line.src.y - self.src.y),
            ;
            lemma_cramer(
                self.dir.x as int,
                self.dir.y as int,
                line.dir.x as int,
                line.dir.y as int,
                bx as int,
                by as int,
            );
        }
        Some(PlanIntersection::Params(IntersectionParams { x_num, y_num, den: det }))
    }
}

/// Per-cell contour result: a 2x2 pixel cell yields no boundary segment, one,
/// or two — the closed arity set of the marching-squares classification, with
/// the ambiguous saddle cells made explicit rather than silent.
pub enum Case2<T> {
    C0,
    C1(T),
    C2(T, T),
}

/// The point `(px, py)` in half-pixel units.
pub open spec fn spec_vec2(px: int, py: int) -> Vec2 {
    Vec2 { x: px as i64, y: py as i64 }
}

/// The segment from `(ax, ay)` to `(bx, by)` in half-pixel units.
pub open spec fn spec_seg(ax: int, ay: int, bx: int, by: int) -> Segment {
    Segment { src: spec_vec2(ax, ay), tgt: spec_vec2(bx, by) }
}

/// Marching-squares classification of the 2x2 cell with corners
/// `p00 p10 p01 p11` at `(x, y)`, `(x+1, y)`, `(x, y+1)`, `(x+1, y+1)`.
/// All endpoints are edge midpoints of the cell, written in half-pixel
/// units (twice their pixel coordinates, so they stay integers):
///
/// - a saddle (equal diagonals that differ from each other) yields two
///   segments, always resolved with the same fixed diagonal pairing — a
///   fixed tie-break, not an adaptive one;
/// - a lone differing corner yields the segment joining the midpoints of its
///   two adjacent edges;
/// - two agreeing adjacent corners that differ from the other two yield the
///   single segment cutting the cell between the pairs;
/// - uniform corners yield nothing.
pub open spec fn spec_segments_from_pixel(
    p00: bool,
    p10: bool,
    p01: bool,
    p11: bool,
    x: int,
    y: int,
) -> Case2<Segment> {
    let s00 = spec_seg(2 * x + 1, 2 * y, 2 * x, 2 * y + 1);
    let s11 = spec_seg(2 * x + 2, 2 * y + 1, 2 * x + 1, 2 * y + 2);
    let s10 = spec_seg(2 * x + 2, 2 * y + 1, 2 * x + 1, 2 * y);
    let s01 = spec_seg(2 * x + 1, 2 * y + 2, 2 * x, 2 * y + 1);
    if p00 && p11 && !p10 && !p01 {
        Case2::C2(s00, s11)
    } else if !p00 && !p11 && p01 && p10 {
        Case2::C2(s01, s11)
    } else if p10 != p00 && p01 != p00 && p11 != p00 {
        Case2::C1(s00)
    } else if p10 != p00 && p10 != p01 && p10 != p11 {
        Case2::C1(s10)
    } else if p01 != p00 && p01 != p10 && p01 != p11 {
        Case2::C1(s01)
    } else if p11 != p00 && p11 != p01 && p11 != p10 {
        Case2::C1(s11)
    } else if p00 == p10 && p00 != p01 && p00 != p11 {
        Case2::C1(spec_seg(2 * x, 2 * y + 1, 2 * x + 2, 2 * y + 1))
    } else if p00 == p01 && p00 != p10 && p00 != p11 {
        Case2::C1(spec_seg(2 * x + 1, 2 * y, 2 * x + 1, 2 * y + 2))
    } else {
        Case2::C0
    }
}

/// Contour classification is complete over the closed corner enumeration:
/// every one of the 16 corner assignments yields exactly one arity — uniform
/// corners none, the two saddles two, everything else exactly one — and a
/// lone differing corner always yields the segment joining the midpoints of
/// its two adjacent edges.
pub proof fn lemma_classifier_total(p00: bool, p10: bool, p01: bool, p11: bool, x: int, y: int)
    ensures
        (p00 == p10 && p10 == p01 && p01 == p11) <==> spec_segments_from_pixel(
            p00,
            p10,
            p01,
            p11,
            x,
            y,
        ) is C0,
        (p00 == p11 && p10 == p01 && p00 != p10) <==> spec_segments_from_pixel(
            p00,
            p10,
            p01,
            p11,
            x,
            y,
        ) is C2,
        !(p00 == p10 && p10 == p01 && p01 == p11) && !(p00 == p11 && p10 == p01 && p00 != p10)
            <==> spec_segments_from_pixel(p00, p10, p01, p11, x, y) is C1,
        !p00 && p10 && p01 && p11 || p00 && !p10 && !p01 && !p11 ==> spec_segments_from_pixel(
            p00,
            p10,
            p01,
            p11,
            x,
            y,
        ) == Case2::C1(spec_seg(2 * x + 1, 2 * y, 2 * x, 2 * y + 1)),
        p10 != p00 && p10 != p01 && p10 != p11 ==> spec_segments_from_pixel(p00, p10, p01, p11, x, y)
            == Case2::C1(spec_seg(2 * x + 2, 2 * y + 1, 2 * x + 1, 2 * y)),
        p01 != p00 && p01 != p10 && p01 != p11 ==> spec_segments_from_pixel(p00, p10, p01, p11, x, y)
            == Case2::C1(spec_seg(2 * x + 1, 2 * y + 2, 2 * x, 2 * y + 1)),
        p11 != p00 && p11 != p01 && p11 != p10 ==> spec_segments_from_pixel(p00, p10, p01, p11, x, y)
            == Case2::C1(spec_seg(2 * x + 2, 2 * y + 1, 2 * x + 1, 2 * y + 2)),
{
}

/// Classify one 2x2 cell of corner booleans into its contour segments, in
/// half-pixel units.  The classification is exhaustive: the branch for an
/// unclassifiable cell is proved unreachable rather than silently returning
/// nothing.
pub fn get_segments_from_pixel(p00: bool, p10: bool, p01: bool, p11: bool, x: i64, y: i64) -> (r:
    Case2<Segment>)
    requires
        -COORD_MAX <= x <= COORD_MAX,
        -COORD_MAX <= y <= COORD_MAX,
    ensures
        r == spec_segments_from_pixel(p00, p10, p01, p11, x as int, y as int),
{
    let bottom = Vec2::new(2 * x + 1, 2 * y);
    let left = Vec2::new(2 * x, 2 * y + 1);
    let right = Vec2::new(2 * x + 2, 2 * y + 1);
    let top = Vec2::new(2 * x + 1, 2 * y + 2);
    let s00 = Segment::new(bottom, left);
    let s11 = Segment::new(right, top);
    let s10 = Segment::new(right, bottom);
    let s01 = Segment::new(top, left);
    if p00 && p11 && !p10 && !p01 {
        return Case2::C2(s00, s11);
    }
    if !p00 && !p11 && p01 && p10 {
        return Case2::C2(s01, s11);
    }
    if p10 != p00 && p01 != p00 && p11 != p00 {
        return Case2::C1(s00);
    }
    if p10 != p00 && p10 != p01 && p10 != p11 {
        return Case2::C1(s10);
    }
    if p01 != p00 && p01 != p10 && p01 != p11 {
        return Case2::C1(s01);
    }
    if p11 != p00 && p11 != p01 && p11 != p10 {
        return Case2::C1(s11);
    }
    if p00 == p10 && p00 != p01 && p00 != p11 {
        return Case2::C1(Segment::new(left, right));
    }
    if p00 == p01 && p00 != p10 && p00 != p11 {
        return Case2::C1(Segment::new(bottom, top));
    }
    proof {
        assert(p00 == p10 && p10 == p01 && p01 == p11);
    }
    Case2::C0
}

impl BitMap {
    /// Contour segments of the cell between pixels `(x, y)` and
    /// `(x+1, y+1)`: corners read through the defaulting accessor, so
    /// out-of-range corners count as `false`.
    pub fn from_pixel_to_segments(&self, x: i64, y: i64) -> (r: Case2<Segment>)
        requires
            self.wf(),
            -COORD_MAX <= x < COORD_MAX,
            -COORD_MAX <= y < COORD_MAX,
        ensures
            r == spec_segments_from_pixel(
                self.spec_get_default(x as int, y as int),
                self.spec_get_default(x as int + 1, y as int),
                self.spec_get_default(x as int, y as int + 1),
                self.spec_get_default(x as int + 1, y as int + 1),
                x as int,
                y as int,
            ),
    {
        let p00 = bit_map_corner(self, x, y);
        let p10 = bit_map_corner(self, x + 1, y);
        let p01 = bit_map_corner(self, x, y + 1);
        let p11 = bit_map_corner(self, x + 1, y + 1);
        get_segments_from_pixel(p00, p10, p01, p11, x, y)
    }
}

/// Corner predicate of a binary field: the defaulting read, with negative
/// coordinates also reading `false`.
fn bit_map_corner(bmap: &BitMap, i: i64, j: i64) -> (r: bool)
    requires
        bmap.wf(),
        i <= COORD_MAX,
        j <= COORD_MAX,
    ensures
        r == bmap.spec_get_default(i as int, j as int),
{
    if i >= 0 && j >= 0 {
        bmap.get_default(i as usize, j as usize)
    } else {
        false
    }
}

/// The corner `(i, j)` of the scalar field counts as inside the contour at
/// iso-value `z`: it is in range and its sample is at most `z`.  Out-of-range
/// corners count as `false`.
pub open spec fn spec_threshold_corner(hmap: HeightMap, i: int, j: int, z: int) -> bool {
    hmap.in_range(i, j) && hmap.spec_at(i, j) <= z
}

/// Corner predicate of a scalar field thresholded at `z`.
fn height_map_corner(hmap: &HeightMap, i: i64, j: i64, z: i64) -> (r: bool)
    requires
        hmap.wf(),
        i <= COORD_MAX,
        j <= COORD_MAX,
    ensures
        r == spec_threshold_corner(*hmap, i as int, j as int, z as int),
{
    if i >= 0 && j >= 0 {
        let iu = i as usize;
        let ju = j as usize;
        if iu < hmap.get_width() && ju < hmap.get_height() {
            hmap.get(iu, ju) <= z
        } else {
            false
        }
    } else {
        false
    }
}

impl HeightMap {
    /// Contour segments of the cell between pixels `(x, y)` and
    /// `(x+1, y+1)` of this field thresholded at iso-value `z`: the boundary
    /// between samples at most `z` and larger ones, with out-of-range corners
    /// counting as outside.
    pub fn from_pixel_to_segments(&self, x: i64, y: i64, z: i64) -> (r: Case2<Segment>)
        requires
            self.wf(),
            -COORD_MAX <= x < COORD_MAX,
            -COORD_MAX <= y < COORD_MAX,
        ensures
            r == spec_segments_from_pixel(
                spec_threshold_corner(*self, x as int, y as int, z as int),
                spec_threshold_corner(*self, x as int + 1, y as int, z as int),
                spec_threshold_corner(*self, x as int, y as int + 1, z as int),
                spec_threshold_corner(*self, x as int + 1, y as int + 1, z as int),
                x as int,
                y as int,
            ),
    {
        let p00 = height_map_corner(self, x, y, z);
        let p10 = height_map_corner(self, x + 1, y, z);
        let p01 = height_map_corner(self, x, y + 1, z);
        let p11 = height_map_corner(self, x + 1, y + 1, z);
        get_segments_from_pixel(p00, p10, p01, p11, x, y)
    }
}

/// Walks the intersections between a half line and a scalar field's
/// contours.
pub struct IntersectionIterator {
    line: HalfLine,
    hmap: HeightMap,
}

impl IntersectionIterator {
    /// The field being walked.
    pub closed spec fn spec_hmap(&self) -> HeightMap {
        self.hmap
    }

    /// The half line being walked.
    pub closed spec fn spec_half_line(&self) -> HalfLine {
        self.line
    }

    /// Pair a field with a half line to walk.
    pub fn new(hmap: HeightMap, line: HalfLine) -> (r: Self)
        ensures
            r.spec_hmap() == hmap,
            r.spec_half_line() == line,
    {
        Self { line, hmap }
    }

    /// The field being walked.
    pub fn get_hmap<'a>(&'a self) -> (r: &'a HeightMap)
        ensures
            r == self.spec_hmap(),
    {
        &self.hmap
    }

    /// The half line being walked.
    pub fn get_half_line(&self) -> (r: HalfLine)
        ensures
            r == self.spec_half_line(),
    {
        self.line
    }
}

} // verus!
