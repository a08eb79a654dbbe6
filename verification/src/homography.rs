//! The projective transform that carries the flat keyboard image onto a
//! quadrilateral, as a matrix of whole numbers, and what it does to points.

use crate::arith::{lemma_mul_diff, lemma_mul_flip_pair, lemma_mul_sum3};
use crate::geometry::{Frac, FracPoint, FracRect};
use vstd::prelude::*;

verus! {

/// Twice the signed area of the triangle `p`, `q`, `r` of whole points.
pub open spec fn cross(p: FracPoint, q: FracPoint, r: FracPoint) -> int {
    (q.x.num - p.x.num) * (r.y.num - p.y.num) - (q.y.num - p.y.num) * (r.x.num - p.x.num)
}

/// The three whole points lie on one line.
pub open spec fn collinear(p: FracPoint, q: FracPoint, r: FracPoint) -> bool {
    cross(p, q, r) == 0
}

/// Some three corners of the border lie on one line. This holds of a
/// border whose four corners are on one line, and of one without area.
pub open spec fn degenerate(border: FracRect) -> bool {
    ||| collinear(border.tl, border.tr, border.br)
    ||| collinear(border.tr, border.br, border.bl)
    ||| collinear(border.br, border.bl, border.tl)
    ||| collinear(border.bl, border.tl, border.tr)
}

/// The point has whole coordinates of magnitude at most `limit`.
pub open spec fn on_grid(p: FracPoint, limit: int) -> bool {
    &&& p.x.den == 1
    &&& p.y.den == 1
    &&& -limit <= p.x.num <= limit
    &&& -limit <= p.y.num <= limit
}

/// All four corners have whole coordinates of magnitude at most `limit`.
pub open spec fn border_on_grid(border: FracRect, limit: int) -> bool {
    &&& on_grid(border.tl, limit)
    &&& on_grid(border.tr, limit)
    &&& on_grid(border.br, limit)
    &&& on_grid(border.bl, limit)
}

/// The differences between the corners of a border that its transform is
/// made of.
pub struct Edges {
    pub dx1: int,
    pub dx2: int,
    pub sx: int,
    pub dy1: int,
    pub dy2: int,
    pub sy: int,
}

impl Edges {
    /// The differences for `border`: from the bottom-right corner to the
    /// top-right and bottom-left ones, and how far the border is from a
    /// parallelogram.
    pub open spec fn of(border: FracRect) -> Edges {
        Edges {
            dx1: border.tr.x.num - border.br.x.num,
            dx2: border.bl.x.num - border.br.x.num,
            sx: border.tl.x.num - border.tr.x.num + border.br.x.num - border.bl.x.num,
            dy1: border.tr.y.num - border.br.y.num,
            dy2: border.bl.y.num - border.br.y.num,
            sy: border.tl.y.num - border.tr.y.num + border.br.y.num - border.bl.y.num,
        }
    }

    /// The common denominator of the transform's coefficients.
    pub open spec fn det(self) -> int {
        self.dx1 * self.dy2 - self.dx2 * self.dy1
    }

    /// The numerator of the coefficient of `x` in the denominator.
    pub open spec fn tilt_x(self) -> int {
        self.sx * self.dy2 - self.dx2 * self.sy
    }

    /// The numerator of the coefficient of `y` in the denominator.
    pub open spec fn tilt_y(self) -> int {
        self.dx1 * self.sy - self.sx * self.dy1
    }
}

/// A projective transform of the plane: the point `(x, y)` goes to
/// `((a x + b y + c) / (g x + h y + k), (d x + e y + f) / (g x + h y + k))`.
pub struct Homography {
    pub a: int,
    pub b: int,
    pub c: int,
    pub d: int,
    pub e: int,
    pub f: int,
    pub g: int,
    pub h: int,
    pub k: int,
}

impl Homography {
    /// The transform that carries the corners `(0, 0)`, `(1, 0)`, `(1, 1)`,
    /// `(0, 1)` of the unit square to the corners of `border`, in order.
    pub open spec fn of_unit_square(border: FracRect) -> Homography {
        let edges = Edges::of(border);
        let det = edges.det();
        let gx = edges.tilt_x();
        let gy = edges.tilt_y();
        Homography {
            a: det * (border.tr.x.num - border.tl.x.num) + gx * border.tr.x.num,
            b: det * (border.bl.x.num - border.tl.x.num) + gy * border.bl.x.num,
            c: det * border.tl.x.num,
            d: det * (border.tr.y.num - border.tl.y.num) + gx * border.tr.y.num,
            e: det * (border.bl.y.num - border.tl.y.num) + gy * border.bl.y.num,
            f: det * border.tl.y.num,
            g: gx,
            h: gy,
            k: det,
        }
    }

    /// The transform that carries the corners `(0, 0)`, `(width, 0)`,
    /// `(width, height)`, `(0, height)` of the flat image to the corners of
    /// `border`, in order.
    pub open spec fn onto(width: int, height: int, border: FracRect) -> Homography {
        let unit = Homography::of_unit_square(border);
        Homography {
            a: unit.a * height,
            b: unit.b * width,
            c: unit.c * (width * height),
            d: unit.d * height,
            e: unit.e * width,
            f: unit.f * (width * height),
            g: unit.g * height,
            h: unit.h * width,
            k: unit.k * (width * height),
        }
    }

    /// The numerator of the image's first coordinate, for `p` given by
    /// its fractions.
    pub open spec fn numerator_x(self, p: FracPoint) -> int {
        self.a * (p.x.num * p.y.den) + self.b * (p.y.num * p.x.den) + self.c * (p.x.den * p.y.den)
    }

    /// The numerator of the image's second coordinate.
    pub open spec fn numerator_y(self, p: FracPoint) -> int {
        self.d * (p.x.num * p.y.den) + self.e * (p.y.num * p.x.den) + self.f * (p.x.den * p.y.den)
    }

    /// The denominator of both coordinates of the image.
    pub open spec fn denominator(self, p: FracPoint) -> int {
        self.g * (p.x.num * p.y.den) + self.h * (p.y.num * p.x.den) + self.k * (p.x.den * p.y.den)
    }

    /// The image of `p`, its denominators made positive; none where the
    /// denominator vanishes, which is where `p` goes to infinity.
    pub open spec fn project(self, p: FracPoint) -> Option<FracPoint> {
        let w = self.denominator(p);
        if w > 0 {
            Some(
                FracPoint {
                    x: Frac { num: self.numerator_x(p), den: w },
                    y: Frac { num: self.numerator_y(p), den: w },
                },
            )
        } else if w < 0 {
            Some(
                FracPoint {
                    x: Frac { num: -self.numerator_x(p), den: -w },
                    y: Frac { num: -self.numerator_y(p), den: -w },
                },
            )
        } else {
            None
        }
    }

    /// The rectangle of the images of the corners of `r`, in their order;
    /// none if a corner goes to infinity.
    pub open spec fn project_rect(self, r: FracRect) -> Option<FracRect> {
        if self.project(r.tl) is Some && self.project(r.tr) is Some && self.project(r.br) is Some
            && self.project(r.bl) is Some {
            Some(
                FracRect {
                    tl: self.project(r.tl)->0,
                    tr: self.project(r.tr)->0,
                    br: self.project(r.br)->0,
                    bl: self.project(r.bl)->0,
                },
            )
        } else {
            None
        }
    }
}

/// The four denominators that the corners of the unit square get are the
/// areas of the four corner triangles of the border, up to sign.
pub proof fn lemma_corner_denominators(border: FracRect)
    ensures
        ({
            let edges = Edges::of(border);
            &&& edges.det() == -cross(border.tr, border.br, border.bl)
            &&& edges.det() + edges.tilt_x() == -cross(border.br, border.bl, border.tl)
            &&& edges.det() + edges.tilt_x() + edges.tilt_y() == -cross(
                border.bl,
                border.tl,
                border.tr,
            )
            &&& edges.det() + edges.tilt_y() == -cross(border.tl, border.tr, border.br)
        }),
{
    let (x0, y0) = (border.tl.x.num, border.tl.y.num);
    let (x1, y1) = (border.tr.x.num, border.tr.y.num);
    let (x2, y2) = (border.br.x.num, border.br.y.num);
    let (x3, y3) = (border.bl.x.num, border.bl.y.num);
    assert((x1 - x2) * (y3 - y2) - (x3 - x2) * (y1 - y2) == -((x2 - x1) * (y3 - y1) - (y2 - y1) * (x3
        - x1))) by (nonlinear_arith);
    assert((x1 - x2) * (y3 - y2) - (x3 - x2) * (y1 - y2) + ((x0 - x1 + x2 - x3) * (y3 - y2) - (x3
        - x2) * (y0 - y1 + y2 - y3)) == -((x3 - x2) * (y0 - y2) - (y3 - y2) * (x0 - x2)))
        by (nonlinear_arith);
    assert((x1 - x2) * (y3 - y2) - (x3 - x2) * (y1 - y2) + ((x0 - x1 + x2 - x3) * (y3 - y2) - (x3
        - x2) * (y0 - y1 + y2 - y3)) + ((x1 - x2) * (y0 - y1 + y2 - y3) - (x0 - x1 + x2 - x3) * (y1
        - y2)) == -((x0 - x3) * (y1 - y3) - (y0 - y3) * (x1 - x3))) by (nonlinear_arith);
    assert((x1 - x2) * (y3 - y2) - (x3 - x2) * (y1 - y2) + ((x1 - x2) * (y0 - y1 + y2 - y3) - (x0
        - x1 + x2 - x3) * (y1 - y2)) == -((x1 - x0) * (y2 - y0) - (y1 - y0) * (x2 - x0)))
        by (nonlinear_arith);
}

/// How the two tilts and the determinant of a border hang together.
proof fn lemma_tilts(e: Edges)
    ensures
        e.tilt_x() * e.dx1 + e.tilt_y() * e.dx2 == e.sx * e.det(),
        e.tilt_x() * e.dy1 + e.tilt_y() * e.dy2 == e.sy * e.det(),
{
    let (dx1, dx2, sx, dy1, dy2, sy) = (e.dx1, e.dx2, e.sx, e.dy1, e.dy2, e.sy);
    assert((sx * dy2 - dx2 * sy) * dx1 + (dx1 * sy - sx * dy1) * dx2 == sx * (dx1 * dy2 - dx2
        * dy1)) by (nonlinear_arith);
    assert((sx * dy2 - dx2 * sy) * dy1 + (dx1 * sy - sx * dy1) * dy2 == sy * (dx1 * dy2 - dx2
        * dy1)) by (nonlinear_arith);
}

/// One coordinate of the images of the unit square's corners, before the
/// division: `c0`, `c1`, `c2`, `c3` are that coordinate of the border's
/// corners.
proof fn lemma_unit_corners(
    det: int,
    gx: int,
    gy: int,
    c0: int,
    c1: int,
    c2: int,
    c3: int,
)
    requires
        gx * (c1 - c2) + gy * (c3 - c2) == (c0 - c1 + c2 - c3) * det,
    ensures
        ({
            let a = det * (c1 - c0) + gx * c1;
            let b = det * (c3 - c0) + gy * c3;
            let c = det * c0;
            &&& c == c0 * det
            &&& a + c == c1 * (det + gx)
            &&& a + b + c == c2 * (det + gx + gy)
            &&& b + c == c3 * (det + gy)
        }),
{
    lemma_mul_diff(det, c1, c0);
    lemma_mul_diff(det, c3, c0);
    lemma_mul_diff(gx, c1, c2);
    lemma_mul_diff(gy, c3, c2);
    lemma_mul_sum3(c1, det, gx, 0);
    lemma_mul_sum3(c3, det, gy, 0);
    lemma_mul_sum3(c2, det, gx, gy);
    lemma_mul_diff(det, c0 + c2, c1 + c3);
    lemma_mul_sum3(det, c0, c2, 0);
    lemma_mul_sum3(det, c1, c3, 0);
    assert(det * c0 == c0 * det && det * c1 == c1 * det && det * c2 == c2 * det && det * c3 == c3
        * det) by (nonlinear_arith);
    assert(gx * c1 == c1 * gx && gx * c2 == c2 * gx && gy * c3 == c3 * gy && gy * c2 == c2 * gy)
        by (nonlinear_arith);
}

/// One term of a scaled row at a corner: the coefficient `p`, scaled by
/// `other`, meets the corner coordinate `flag * along`.
proof fn lemma_scaled_term(p: int, along: int, other: int, flag: int)
    by (nonlinear_arith)
    ensures
        (p * other) * ((flag * along) * 1) == (along * other) * (p * flag),
        (p * other) * ((flag * along) * 1) == (other * along) * (p * flag),
        (p * (along * other)) * (1 * 1) == (along * other) * p,
{
}

/// What a row `(p, q, r)` of the unit square's transform, scaled to a
/// `width` by `height` image, gives at the corner `(ex * width, ey * height)`.
proof fn lemma_scaled_row(p: int, q: int, r: int, width: int, height: int, ex: int, ey: int)
    ensures
        (p * height) * ((ex * width) * 1) + (q * width) * ((ey * height) * 1) + (r * (width
            * height)) * (1 * 1) == (width * height) * (p * ex + q * ey + r),
{
    lemma_scaled_term(p, width, height, ex);
    lemma_scaled_term(q, height, width, ey);
    lemma_scaled_term(r, width, height, 0);
    lemma_mul_sum3(width * height, p * ex, q * ey, r);
}

/// A point whose numerators are `c * w` over `w` is the whole point `c`.
proof fn lemma_image_same(
    area: int,
    nx: int,
    ny: int,
    w: int,
    cx: int,
    cy: int,
    m: Homography,
    p: FracPoint,
)
    requires
        area > 0,
        w != 0,
        nx == cx * w,
        ny == cy * w,
        m.numerator_x(p) == area * nx,
        m.numerator_y(p) == area * ny,
        m.denominator(p) == area * w,
    ensures
        m.project(p) is Some,
        m.project(p)->0.wf(),
        m.project(p)->0.same(FracPoint::at(cx, cy)),
{
    assert(area * w != 0 && (w > 0 ==> area * w > 0) && (w < 0 ==> area * w < 0))
        by (nonlinear_arith)
        requires
            area > 0,
            w != 0,
    ;
    assert(area * (cx * w) == cx * (area * w) && area * (cy * w) == cy * (area * w))
        by (nonlinear_arith);
    let q = m.project(p)->0;
    let target = FracPoint::at(cx, cy);
    assert(q.x.num * target.x.den == target.x.num * q.x.den) by (nonlinear_arith)
        requires
            target.x.den == 1,
            target.x.num == cx,
            (q.x.num == area * nx && q.x.den == area * w) || (q.x.num == -(area * nx) && q.x.den
                == -(area * w)),
            area * nx == cx * (area * w),
    ;
    assert(q.y.num * target.y.den == target.y.num * q.y.den) by (nonlinear_arith)
        requires
            target.y.den == 1,
            target.y.num == cy,
            (q.y.num == area * ny && q.y.den == area * w) || (q.y.num == -(area * ny) && q.y.den
                == -(area * w)),
            area * ny == cy * (area * w),
    ;
}

/// The transform onto a border carries each corner of the flat image
/// exactly to the corner of the border that it stands for.
pub proof fn theorem_corners_onto_border(width: int, height: int, border: FracRect)
    requires
        width > 0,
        height > 0,
        border.tl == FracPoint::at(border.tl.x.num, border.tl.y.num),
        border.tr == FracPoint::at(border.tr.x.num, border.tr.y.num),
        border.br == FracPoint::at(border.br.x.num, border.br.y.num),
        border.bl == FracPoint::at(border.bl.x.num, border.bl.y.num),
        !degenerate(border),
    ensures
        ({
            let m = Homography::onto(width, height, border);
            &&& m.project(FracPoint::at(0, 0)) matches Some(p) && p.wf() && p.same(border.tl)
            &&& m.project(FracPoint::at(width, 0)) matches Some(p) && p.wf() && p.same(border.tr)
            &&& m.project(FracPoint::at(width, height)) matches Some(p) && p.wf() && p.same(
                border.br,
            )
            &&& m.project(FracPoint::at(0, height)) matches Some(p) && p.wf() && p.same(border.bl)
        }),
{
    let m = Homography::onto(width, height, border);
    let u = Homography::of_unit_square(border);
    let e = Edges::of(border);
    let (x0, y0) = (border.tl.x.num, border.tl.y.num);
    let (x1, y1) = (border.tr.x.num, border.tr.y.num);
    let (x2, y2) = (border.br.x.num, border.br.y.num);
    let (x3, y3) = (border.bl.x.num, border.bl.y.num);
    let area = width * height;
    assert(area > 0) by (nonlinear_arith)
        requires
            area == width * height,
            width > 0,
            height > 0,
    ;
    lemma_corner_denominators(border);
    lemma_tilts(e);
    lemma_unit_corners(u.k, u.g, u.h, x0, x1, x2, x3);
    lemma_unit_corners(u.k, u.g, u.h, y0, y1, y2, y3);
    assert(width * 0 == 0 && height * 0 == 0 && 0 * width == 0 && 0 * height == 0 && 1 * width
        == width && 1 * height == height) by (nonlinear_arith);
    assert(u.a * 0 == 0 && u.b * 0 == 0 && u.d * 0 == 0 && u.e * 0 == 0 && u.g * 0 == 0 && u.h * 0
        == 0) by (nonlinear_arith);
    assert(u.a * 1 == u.a && u.b * 1 == u.b && u.d * 1 == u.d && u.e * 1 == u.e && u.g * 1 == u.g
        && u.h * 1 == u.h) by (nonlinear_arith);
    // Top-left.
    lemma_scaled_row(u.a, u.b, u.c, width, height, 0, 0);
    lemma_scaled_row(u.d, u.e, u.f, width, height, 0, 0);
    lemma_scaled_row(u.g, u.h, u.k, width, height, 0, 0);
    lemma_image_same(area, u.c, u.f, u.k, x0, y0, m, FracPoint::at(0, 0));
    // Top-right.
    lemma_scaled_row(u.a, u.b, u.c, width, height, 1, 0);
    lemma_scaled_row(u.d, u.e, u.f, width, height, 1, 0);
    lemma_scaled_row(u.g, u.h, u.k, width, height, 1, 0);
    lemma_image_same(
        area,
        u.a + u.c,
        u.d + u.f,
        u.g + u.k,
        x1,
        y1,
        m,
        FracPoint::at(width, 0),
    );
    // Bottom-right.
    lemma_scaled_row(u.a, u.b, u.c, width, height, 1, 1);
    lemma_scaled_row(u.d, u.e, u.f, width, height, 1, 1);
    lemma_scaled_row(u.g, u.h, u.k, width, height, 1, 1);
    lemma_image_same(
        area,
        u.a + u.b + u.c,
        u.d + u.e + u.f,
        u.g + u.h + u.k,
        x2,
        y2,
        m,
        FracPoint::at(width, height),
    );
    // Bottom-left.
    lemma_scaled_row(u.a, u.b, u.c, width, height, 0, 1);
    lemma_scaled_row(u.d, u.e, u.f, width, height, 0, 1);
    lemma_scaled_row(u.g, u.h, u.k, width, height, 0, 1);
    lemma_image_same(
        area,
        u.b + u.c,
        u.e + u.f,
        u.h + u.k,
        x3,
        y3,
        m,
        FracPoint::at(0, height),
    );
}

/// The transform `m` carries the point `(cx, cy)` to the whole point
/// `target`.
pub open spec fn carries(m: Homography, cx: int, cy: int, target: FracPoint) -> bool {
    m.project(FracPoint::at(cx, cy)) matches Some(p) && p.same(target)
}

/// The transform `m` carries the corners of the flat image to the corners
/// of `border`, in order.
pub open spec fn carries_corners(m: Homography, width: int, height: int, border: FracRect) -> bool {
    &&& carries(m, 0, 0, border.tl)
    &&& carries(m, width, 0, border.tr)
    &&& carries(m, width, height, border.br)
    &&& carries(m, 0, height, border.bl)
}

/// What a transform that carries `(cx, cy)` to the whole point `(tx, ty)`
/// computes there: a denominator that is not zero, and numerators that
/// are its multiples.
proof fn lemma_carried(m: Homography, cx: int, cy: int, tx: int, ty: int)
    requires
        carries(m, cx, cy, FracPoint::at(tx, ty)),
    ensures
        ({
            let w = m.g * cx + m.h * cy + m.k;
            &&& w != 0
            &&& m.a * cx + m.b * cy + m.c == tx * w
            &&& m.d * cx + m.e * cy + m.f == ty * w
        }),
{
    let p = FracPoint::at(cx, cy);
    assert(cx * 1 == cx && cy * 1 == cy && 1 * 1 == 1) by (nonlinear_arith);
    assert(m.c * 1 == m.c && m.f * 1 == m.f && m.k * 1 == m.k) by (nonlinear_arith);
    let w = m.denominator(p);
    let nx = m.numerator_x(p);
    let ny = m.numerator_y(p);
    assert(w == m.g * cx + m.h * cy + m.k);
    let q = m.project(p)->0;
    assert(nx == tx * w && ny == ty * w) by (nonlinear_arith)
        requires
            w != 0,
            (q.x.num == nx && q.x.den == w && q.y.num == ny && q.y.den == w) || (q.x.num == -nx
                && q.x.den == -w && q.y.num == -ny && q.y.den == -w),
            q.x.num * 1 == tx * q.x.den,
            q.y.num * 1 == ty * q.y.den,
    ;
}

/// From `w0 a = w1 b + w3 c` for vectors `a`, `b`, `c` of the plane, the
/// part along `c` is taken out by the cross product with `c`.
proof fn lemma_eliminate(
    w0: int,
    w1: int,
    w3: int,
    ax: int,
    ay: int,
    bx: int,
    by: int,
    cx: int,
    cy: int,
)
    requires
        w0 * ax - w1 * bx - w3 * cx == 0,
        w0 * ay - w1 * by - w3 * cy == 0,
    ensures
        w0 * (ax * cy - ay * cx) == w1 * (bx * cy - by * cx),
{
    let p = w0 * ax - w1 * bx - w3 * cx;
    let q = w0 * ay - w1 * by - w3 * cy;
    assert(p * cy == 0 && q * cx == 0) by (nonlinear_arith)
        requires
            p == 0,
            q == 0,
    ;
    lemma_mul_sum3(cy, w0 * ax, -(w1 * bx), -(w3 * cx));
    lemma_mul_sum3(cx, w0 * ay, -(w1 * by), -(w3 * cy));
    lemma_mul_flip_pair(p, cy, q, cx);
    assert(cy * (w0 * ax) - cx * (w0 * ay) == w0 * (ax * cy - ay * cx)) by (nonlinear_arith);
    assert(cy * (-(w1 * bx)) - cx * (-(w1 * by)) == -(w1 * (bx * cy - by * cx)))
        by (nonlinear_arith);
    assert(cy * (-(w3 * cx)) - cx * (-(w3 * cy)) == 0) by (nonlinear_arith);
}

/// Weights `w0`, `w1`, `w2`, `w3` with which the corners of a border,
/// taken with alternating signs, cancel out, stand to each other as the
/// denominators that the border's own transform gives the corners.
proof fn lemma_weights(border: FracRect, w0: int, w1: int, w2: int, w3: int)
    requires
        w0 - w1 + w2 - w3 == 0,
        border.tl.x.num * w0 - border.tr.x.num * w1 + border.br.x.num * w2 - border.bl.x.num * w3
            == 0,
        border.tl.y.num * w0 - border.tr.y.num * w1 + border.br.y.num * w2 - border.bl.y.num * w3
            == 0,
    ensures
        ({
            let e = Edges::of(border);
            &&& w0 * (e.det() + e.tilt_x()) == w1 * e.det()
            &&& w0 * (e.det() + e.tilt_x() + e.tilt_y()) == w2 * e.det()
            &&& w0 * (e.det() + e.tilt_y()) == w3 * e.det()
        }),
{
    let (x0, y0) = (border.tl.x.num, border.tl.y.num);
    let (x1, y1) = (border.tr.x.num, border.tr.y.num);
    let (x2, y2) = (border.br.x.num, border.br.y.num);
    let (x3, y3) = (border.bl.x.num, border.bl.y.num);
    let e = Edges::of(border);
    let (ux, uy) = (x0 - x2, y0 - y2);
    // Seen from the bottom-right corner, the weighted corners still cancel.
    assert(x2 * w2 == x2 * w1 - x2 * w0 + x2 * w3 && y2 * w2 == y2 * w1 - y2 * w0 + y2 * w3)
        by (nonlinear_arith)
        requires
            w2 == w1 - w0 + w3,
    ;
    assert(w0 * (x0 - x2) == x0 * w0 - x2 * w0 && w1 * (x1 - x2) == x1 * w1 - x2 * w1 && w3 * (x3
        - x2) == x3 * w3 - x2 * w3) by (nonlinear_arith);
    assert(w0 * (y0 - y2) == y0 * w0 - y2 * w0 && w1 * (y1 - y2) == y1 * w1 - y2 * w1 && w3 * (y3
        - y2) == y3 * w3 - y2 * w3) by (nonlinear_arith);
    assert(w0 * ux - w1 * e.dx1 - w3 * e.dx2 == 0);
    assert(w0 * uy - w1 * e.dy1 - w3 * e.dy2 == 0);
    lemma_eliminate(w0, w1, w3, ux, uy, e.dx1, e.dy1, e.dx2, e.dy2);
    lemma_eliminate(w0, w3, w1, ux, uy, e.dx2, e.dy2, e.dx1, e.dy1);
    let (dx1, dx2, sx, dy1, dy2, sy) = (e.dx1, e.dx2, e.sx, e.dy1, e.dy2, e.sy);
    assert(ux == sx + dx1 + dx2 && uy == sy + dy1 + dy2);
    assert((sx + dx1 + dx2) * dy2 - (sy + dy1 + dy2) * dx2 == (dx1 * dy2 - dx2 * dy1) + (sx * dy2
        - dx2 * sy)) by (nonlinear_arith);
    assert((sx + dx1 + dx2) * dy1 - (sy + dy1 + dy2) * dx1 == -((dx1 * dy2 - dx2 * dy1) + (dx1 * sy
        - sx * dy1))) by (nonlinear_arith);
    assert(dx2 * dy1 - dy2 * dx1 == -(dx1 * dy2 - dx2 * dy1)) by (nonlinear_arith);
    let det = e.det();
    let gx = e.tilt_x();
    let gy = e.tilt_y();
    assert(w0 * (det + gx) == w1 * det);
    assert(w0 * (-(det + gy)) == w3 * (-det));
    assert(w0 * (-(det + gy)) == -(w0 * (det + gy)) && w3 * (-det) == -(w3 * det))
        by (nonlinear_arith);
    lemma_mul_sum3(w0, det, gx, gy);
    lemma_mul_sum3(w0, det, gx, 0);
    lemma_mul_sum3(w0, det, gy, 0);
    lemma_mul_sum3(det, w1, -w0, w3);
    assert(det * (-w0) == -(det * w0)) by (nonlinear_arith);
    lemma_mul_flip_pair(det, w0, det, w1);
    lemma_mul_flip_pair(det, w3, det, w2);
}

/// One coefficient of a transform that carries the corners, against the
/// same coefficient of the border's own transform: `entry` is the
/// coefficient, `side` the extent of the image along its axis, `c0` and
/// `c1` one coordinate of the border's corners at the two ends of that
/// side, and `w0`, `w1` the denominators there.
proof fn lemma_entry(
    entry: int,
    side: int,
    other: int,
    c0: int,
    c1: int,
    w0: int,
    w1: int,
    det: int,
    tilt: int,
)
    requires
        entry * side == c1 * w1 - c0 * w0,
        w0 * (det + tilt) == w1 * det,
    ensures
        entry * (det * (side * other)) == ((det * (c1 - c0) + tilt * c1) * other) * w0,
        entry * (det * (other * side)) == ((det * (c1 - c0) + tilt * c1) * other) * w0,
{
    let own = det * (c1 - c0) + tilt * c1;
    assert(entry * (det * (side * other)) == ((entry * side) * det) * other && entry * (det * (other
        * side)) == ((entry * side) * det) * other) by (nonlinear_arith);
    assert((c1 * w1 - c0 * w0) * det == c1 * (w1 * det) - c0 * (w0 * det)) by (nonlinear_arith);
    assert(c1 * (w0 * (det + tilt)) - c0 * (w0 * det) == w0 * (det * (c1 - c0) + tilt * c1))
        by (nonlinear_arith);
    assert((w0 * own) * other == (own * other) * w0) by (nonlinear_arith);
}

/// Numerators and a denominator that stand in one ratio, `s` to `t`,
/// neither of them zero, to those of another image make the same image,
/// and none where the other is none.
proof fn lemma_same_image(m: Homography, q: FracPoint, own: Homography, r: FracPoint, s: int, t: int)
    requires
        s != 0,
        t != 0,
        m.numerator_x(q) * t == own.numerator_x(r) * s,
        m.numerator_y(q) * t == own.numerator_y(r) * s,
        m.denominator(q) * t == own.denominator(r) * s,
    ensures
        m.project(q) is None <==> own.project(r) is None,
        m.project(q) is Some ==> own.project(r)->0.same(m.project(q)->0),
{
    let (nx, ny, w) = (m.numerator_x(q), m.numerator_y(q), m.denominator(q));
    let (ox, oy, ow) = (own.numerator_x(r), own.numerator_y(r), own.denominator(r));
    assert(w == 0 <==> ow == 0) by (nonlinear_arith)
        requires
            w * t == ow * s,
            s != 0,
            t != 0,
    ;
    if w != 0 {
        lemma_cross_ratio(ox, ow, nx, w, s, t);
        lemma_cross_ratio(oy, ow, ny, w, s, t);
        let p = m.project(q)->0;
        let o = own.project(r)->0;
        assert(o.x.num * p.x.den == p.x.num * o.x.den) by (nonlinear_arith)
            requires
                ox * w == nx * ow,
                (o.x.num == ox && o.x.den == ow) || (o.x.num == -ox && o.x.den == -ow),
                (p.x.num == nx && p.x.den == w) || (p.x.num == -nx && p.x.den == -w),
        ;
        assert(o.y.num * p.y.den == p.y.num * o.y.den) by (nonlinear_arith)
            requires
                oy * w == ny * ow,
                (o.y.num == oy && o.y.den == ow) || (o.y.num == -oy && o.y.den == -ow),
                (p.y.num == ny && p.y.den == w) || (p.y.num == -ny && p.y.den == -w),
        ;
    }
}

/// One row of a transform, for two ways of writing one point: the
/// values stand to each other as the products of the denominators.
proof fn lemma_row_same_point(a: int, b: int, c: int, q: FracPoint, r: FracPoint)
    requires
        q.same(r),
    ensures
        (a * (q.x.num * q.y.den) + b * (q.y.num * q.x.den) + c * (q.x.den * q.y.den)) * (r.x.den
            * r.y.den) == (a * (r.x.num * r.y.den) + b * (r.y.num * r.x.den) + c * (r.x.den
            * r.y.den)) * (q.x.den * q.y.den),
{
    let (qxn, qxd, qyn, qyd) = (q.x.num, q.x.den, q.y.num, q.y.den);
    let (rxn, rxd, ryn, ryd) = (r.x.num, r.x.den, r.y.num, r.y.den);
    let s = qxd * qyd;
    let t = rxd * ryd;
    // The three homogeneous coordinates, each in the ratio `s` to `t`.
    assert((qxn * qyd) * (rxd * ryd) == (rxn * ryd) * (qxd * qyd)) by (nonlinear_arith)
        requires
            qxn * rxd == rxn * qxd,
    ;
    assert((qyn * qxd) * (rxd * ryd) == (ryn * rxd) * (qxd * qyd)) by (nonlinear_arith)
        requires
            qyn * ryd == ryn * qyd,
    ;
    assert((qxd * qyd) * (rxd * ryd) == (rxd * ryd) * (qxd * qyd)) by (nonlinear_arith);
    lemma_mul_sum3(t, a * (qxn * qyd), b * (qyn * qxd), c * (qxd * qyd));
    lemma_mul_sum3(s, a * (rxn * ryd), b * (ryn * rxd), c * (rxd * ryd));
    lemma_mul_flip_pair(
        a * (qxn * qyd) + b * (qyn * qxd) + c * (qxd * qyd),
        t,
        a * (rxn * ryd) + b * (ryn * rxd) + c * (rxd * ryd),
        s,
    );
    lemma_scale_through(a, qxn * qyd, t, rxn * ryd, s);
    lemma_scale_through(b, qyn * qxd, t, ryn * rxd, s);
    lemma_scale_through(c, qxd * qyd, t, rxd * ryd, s);
}

/// A factor in front does not disturb a ratio.
proof fn lemma_scale_through(a: int, x: int, t: int, y: int, s: int)
    requires
        x * t == y * s,
    ensures
        t * (a * x) == s * (a * y),
{
    assert(t * (a * x) == a * (x * t) && s * (a * y) == a * (y * s)) by (nonlinear_arith);
}

/// The image of a point does not depend on how its coordinates are
/// written: two pairs of fractions that stand for the same point have the
/// same image, or both have none.
pub proof fn theorem_project_respects_same(m: Homography, q: FracPoint, r: FracPoint)
    requires
        q.wf(),
        r.wf(),
        q.same(r),
    ensures
        m.project(q) is None <==> m.project(r) is None,
        m.project(q) is Some ==> m.project(r)->0.same(m.project(q)->0),
{
    let s = q.x.den * q.y.den;
    let t = r.x.den * r.y.den;
    assert(s > 0 && t > 0) by (nonlinear_arith)
        requires
            s == q.x.den * q.y.den,
            t == r.x.den * r.y.den,
            q.x.den > 0,
            q.y.den > 0,
            r.x.den > 0,
            r.y.den > 0,
    ;
    lemma_row_same_point(m.a, m.b, m.c, q, r);
    lemma_row_same_point(m.d, m.e, m.f, q, r);
    lemma_row_same_point(m.g, m.h, m.k, q, r);
    lemma_same_image(m, q, m, r, s, t);
}

/// A row of coefficients in the ratio `s` to `t` gives values in that
/// ratio.
proof fn lemma_row(
    a: int,
    b: int,
    c: int,
    oa: int,
    ob: int,
    oc: int,
    s: int,
    t: int,
    x: int,
    y: int,
    z: int,
)
    requires
        a * t == oa * s,
        b * t == ob * s,
        c * t == oc * s,
    ensures
        (a * x + b * y + c * z) * t == (oa * x + ob * y + oc * z) * s,
{
    lemma_mul_sum3(t, a * x, b * y, c * z);
    lemma_mul_sum3(s, oa * x, ob * y, oc * z);
    lemma_mul_flip_pair(a * x + b * y + c * z, t, oa * x + ob * y + oc * z, s);
    assert(t * (a * x) == (a * t) * x && t * (b * y) == (b * t) * y && t * (c * z) == (c * t) * z)
        by (nonlinear_arith);
    assert(s * (oa * x) == (oa * s) * x && s * (ob * y) == (ob * s) * y && s * (oc * z) == (oc * s)
        * z) by (nonlinear_arith);
}

/// Numerators and denominators in one ratio make equal fractions.
proof fn lemma_cross_ratio(on: int, ow: int, n: int, w: int, s: int, t: int)
    requires
        n * t == on * s,
        w * t == ow * s,
        t != 0,
        s != 0,
    ensures
        on * w == n * ow,
{
    assert((on * w) * (s * t) == (on * s) * (w * t) && (n * ow) * (s * t) == (n * t) * (ow * s))
        by (nonlinear_arith);
    assert((on * s) * (w * t) == (n * t) * (ow * s)) by (nonlinear_arith)
        requires
            n * t == on * s,
            w * t == ow * s,
    ;
    assert(on * w == n * ow) by (nonlinear_arith)
        requires
            (on * w) * (s * t) == (n * ow) * (s * t),
            s != 0,
            t != 0,
    ;
}

/// The transform onto a border is the only one that carries the corners
/// of the flat image to the corners of the border: any transform that
/// does so sends every point to the same place as [`Homography::onto`]
/// does, and the same points to infinity.
pub proof fn theorem_transform_is_unique(
    m: Homography,
    width: int,
    height: int,
    border: FracRect,
    q: FracPoint,
)
    requires
        width > 0,
        height > 0,
        border.tl == FracPoint::at(border.tl.x.num, border.tl.y.num),
        border.tr == FracPoint::at(border.tr.x.num, border.tr.y.num),
        border.br == FracPoint::at(border.br.x.num, border.br.y.num),
        border.bl == FracPoint::at(border.bl.x.num, border.bl.y.num),
        !degenerate(border),
        carries_corners(m, width, height, border),
    ensures
        m.project(q) is None <==> Homography::onto(width, height, border).project(q) is None,
        m.project(q) matches Some(p) ==> Homography::onto(width, height, border).project(q)->0.same(
            p,
        ),
{
    let own = Homography::onto(width, height, border);
    let u = Homography::of_unit_square(border);
    let e = Edges::of(border);
    let (x0, y0) = (border.tl.x.num, border.tl.y.num);
    let (x1, y1) = (border.tr.x.num, border.tr.y.num);
    let (x2, y2) = (border.br.x.num, border.br.y.num);
    let (x3, y3) = (border.bl.x.num, border.bl.y.num);
    let (det, gx, gy) = (e.det(), e.tilt_x(), e.tilt_y());
    let area = width * height;
    lemma_carried(m, 0, 0, x0, y0);
    lemma_carried(m, width, 0, x1, y1);
    lemma_carried(m, width, height, x2, y2);
    lemma_carried(m, 0, height, x3, y3);
    assert(m.a * 0 == 0 && m.b * 0 == 0 && m.d * 0 == 0 && m.e * 0 == 0 && m.g * 0 == 0 && m.h * 0
        == 0) by (nonlinear_arith);
    let w0 = m.k;
    let w1 = m.g * width + m.k;
    let w2 = m.g * width + m.h * height + m.k;
    let w3 = m.h * height + m.k;
    lemma_mul_flip_pair(x0, w0, x1, w1);
    lemma_mul_flip_pair(x2, w2, x3, w3);
    lemma_mul_flip_pair(y0, w0, y1, w1);
    lemma_mul_flip_pair(y2, w2, y3, w3);
    lemma_weights(border, w0, w1, w2, w3);
    lemma_corner_denominators(border);
    assert(area > 0 && det * area != 0) by (nonlinear_arith)
        requires
            area == width * height,
            width > 0,
            height > 0,
            det != 0,
    ;
    let t = own.k;
    assert(t == det * area);
    // The coefficients of `x` and `y` in the numerators.
    lemma_entry(m.a, width, height, x0, x1, w0, w1, det, gx);
    lemma_entry(m.d, width, height, y0, y1, w0, w1, det, gx);
    lemma_entry(m.b, height, width, x0, x3, w0, w3, det, gy);
    lemma_entry(m.e, height, width, y0, y3, w0, w3, det, gy);
    // The coefficients of `x` and `y` in the denominator.
    assert(1 * w1 == w1 && 1 * w0 == w0 && 1 * w3 == w3 && gx * 1 == gx && gy * 1 == gy && det * (
    1 - 1) == 0) by (nonlinear_arith);
    lemma_entry(m.g, width, height, 1, 1, w0, w1, det, gx);
    lemma_entry(m.h, height, width, 1, 1, w0, w3, det, gy);
    // The constants.
    assert(m.c * (det * area) == ((det * x0) * area) * w0 && m.f * (det * area) == ((det * y0)
        * area) * w0) by (nonlinear_arith)
        requires
            m.c == x0 * w0,
            m.f == y0 * w0,
    ;
    lemma_mul_flip_pair(m.k, t, own.k, w0);
    let x = q.x.num * q.y.den;
    let y = q.y.num * q.x.den;
    let z = q.x.den * q.y.den;
    lemma_row(m.a, m.b, m.c, own.a, own.b, own.c, w0, t, x, y, z);
    lemma_row(m.d, m.e, m.f, own.d, own.e, own.f, w0, t, x, y, z);
    lemma_row(m.g, m.h, m.k, own.g, own.h, own.k, w0, t, x, y, z);
    lemma_same_image(m, q, own, q, w0, t);
}

} // verus!
