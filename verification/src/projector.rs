//! The projector: it derives the transform onto a border once, and then
//! carries points of the flat image to the border's plane.

use crate::arith::mul_within;
use crate::geometry::{IbRectangle, Point, Ratio};
use crate::homography::{
    border_on_grid, degenerate, lemma_corner_denominators, Edges, Homography,
};
use vstd::prelude::*;

verus! {

/// The largest magnitude of a border coordinate, and the largest width
/// and height of the flat image, that the projector's arithmetic is sized
/// for.
pub const COORD_LIMIT: i128 = 0x7fff;

/// The largest magnitude of a numerator of a point handed to the projector.
pub const NUM_LIMIT: i128 = 0x10_0000_0000;

/// The largest denominator of a point handed to the projector.
pub const DEN_LIMIT: i128 = 0x40_0000;

/// Why a geometry could not be computed.
#[derive(Clone, Copy, Debug, PartialEq, Eq, Structural)]
pub enum DegenerateGeometryError {
    /// Three corners of the border lie on one line.
    CollinearBorder,
    /// A point goes to infinity under the transform.
    PointAtInfinity,
    /// The keyboard has no white key, so there is no key width to lay
    /// a key out with.
    NoWhiteKey,
}

/// The transform onto a border, fixed when the projector is made.
pub struct Projector {
    a: i128,
    b: i128,
    c: i128,
    d: i128,
    e: i128,
    f: i128,
    g: i128,
    h: i128,
    k: i128,
}

impl Projector {
    /// The transform that the projector applies.
    pub closed spec fn homography(&self) -> Homography {
        Homography {
            a: self.a as int,
            b: self.b as int,
            c: self.c as int,
            d: self.d as int,
            e: self.e as int,
            f: self.f as int,
            g: self.g as int,
            h: self.h as int,
            k: self.k as int,
        }
    }

    /// The coefficients are no larger than a border and an image within
    /// [`COORD_LIMIT`] make them.
    pub closed spec fn wf(&self) -> bool {
        &&& -0x2_0000_0000_0000_0000 <= self.a <= 0x2_0000_0000_0000_0000
        &&& -0x2_0000_0000_0000_0000 <= self.b <= 0x2_0000_0000_0000_0000
        &&& -0x2_0000_0000_0000_0000 <= self.d <= 0x2_0000_0000_0000_0000
        &&& -0x2_0000_0000_0000_0000 <= self.e <= 0x2_0000_0000_0000_0000
        &&& -0x2_0000_0000_0000_0000 <= self.g <= 0x2_0000_0000_0000_0000
        &&& -0x2_0000_0000_0000_0000 <= self.h <= 0x2_0000_0000_0000_0000
        &&& -0x4000_0000_0000_0000_0000 <= self.c <= 0x4000_0000_0000_0000_0000
        &&& -0x4000_0000_0000_0000_0000 <= self.f <= 0x4000_0000_0000_0000_0000
        &&& -0x4000_0000_0000_0000_0000 <= self.k <= 0x4000_0000_0000_0000_0000
    }

    /// The projector that carries the flat image, from `(0, 0)` to
    /// `(width, height)`, onto `border`, corner to corner in order. A
    /// border with three corners on one line has no such transform.
    pub fn new(width: u32, height: u32, border: &IbRectangle) -> (made: Result<
        Projector,
        DegenerateGeometryError,
    >)
        requires
            0 < width <= COORD_LIMIT,
            0 < height <= COORD_LIMIT,
            border_on_grid(border@, COORD_LIMIT as int),
        ensures
            match made {
                Ok(projector) => {
                    &&& !degenerate(border@)
                    &&& projector.wf()
                    &&& projector.homography() == Homography::onto(
                        width as int,
                        height as int,
                        border@,
                    )
                },
                Err(error) => {
                    &&& degenerate(border@)
                    &&& error == DegenerateGeometryError::CollinearBorder
                },
            },
    {
        let (x0, y0): (i128, i128) = (border.tl.x.num, border.tl.y.num);
        let (x1, y1): (i128, i128) = (border.tr.x.num, border.tr.y.num);
        let (x2, y2): (i128, i128) = (border.br.x.num, border.br.y.num);
        let (x3, y3): (i128, i128) = (border.bl.x.num, border.bl.y.num);
        let dx1: i128 = x1 - x2;
        let dx2: i128 = x3 - x2;
        let sx: i128 = x0 - x1 + x2 - x3;
        let dy1: i128 = y1 - y2;
        let dy2: i128 = y3 - y2;
        let sy: i128 = y0 - y1 + y2 - y3;
        let ghost side = 0x1_0000int;
        let ghost skew = 0x2_0000int;
        let det: i128 = mul_within(dx1, dy2, Ghost(side), Ghost(side)) - mul_within(
            dx2,
            dy1,
            Ghost(side),
            Ghost(side),
        );
        let gx: i128 = mul_within(sx, dy2, Ghost(skew), Ghost(side)) - mul_within(
            dx2,
            sy,
            Ghost(side),
            Ghost(skew),
        );
        let gy: i128 = mul_within(dx1, sy, Ghost(side), Ghost(skew)) - mul_within(
            sx,
            dy1,
            Ghost(skew),
            Ghost(side),
        );
        proof {
            lemma_corner_denominators(border@);
            assert(det == Edges::of(border@).det());
            assert(gx == Edges::of(border@).tilt_x());
            assert(gy == Edges::of(border@).tilt_y());
        }
        if det == 0 || det + gx == 0 || det + gx + gy == 0 || det + gy == 0 {
            return Err(DegenerateGeometryError::CollinearBorder);
        }
        let ghost area2 = 0x2_0000_0000int;
        let ghost tilt = 0x4_0000_0000int;
        let ghost coord = 0x8000int;
        let ua: i128 = mul_within(det, x1 - x0, Ghost(area2), Ghost(side)) + mul_within(
            gx,
            x1,
            Ghost(tilt),
            Ghost(coord),
        );
        let ub: i128 = mul_within(det, x3 - x0, Ghost(area2), Ghost(side)) + mul_within(
            gy,
            x3,
            Ghost(tilt),
            Ghost(coord),
        );
        let uc: i128 = mul_within(det, x0, Ghost(area2), Ghost(coord));
        let ud: i128 = mul_within(det, y1 - y0, Ghost(area2), Ghost(side)) + mul_within(
            gx,
            y1,
            Ghost(tilt),
            Ghost(coord),
        );
        let ue: i128 = mul_within(det, y3 - y0, Ghost(area2), Ghost(side)) + mul_within(
            gy,
            y3,
            Ghost(tilt),
            Ghost(coord),
        );
        let uf: i128 = mul_within(det, y0, Ghost(area2), Ghost(coord));
        let w: i128 = width as i128;
        let h: i128 = height as i128;
        let wh: i128 = mul_within(w, h, Ghost(coord), Ghost(coord));
        let ghost lin = 0x4_0000_0000_0000int;
        let ghost con = 0x1_0000_0000_0000int;
        let ghost area = 0x4000_0000int;
        let projector = Projector {
            a: mul_within(ua, h, Ghost(lin), Ghost(coord)),
            b: mul_within(ub, w, Ghost(lin), Ghost(coord)),
            c: mul_within(uc, wh, Ghost(con), Ghost(area)),
            d: mul_within(ud, h, Ghost(lin), Ghost(coord)),
            e: mul_within(ue, w, Ghost(lin), Ghost(coord)),
            f: mul_within(uf, wh, Ghost(con), Ghost(area)),
            g: mul_within(gx, h, Ghost(tilt), Ghost(coord)),
            h: mul_within(gy, w, Ghost(tilt), Ghost(coord)),
            k: mul_within(det, wh, Ghost(area2), Ghost(area)),
        };
        Ok(projector)
    }

    /// The image of one point, or none where the point goes to infinity.
    pub fn project_point(&self, p: Point) -> (image: Option<Point>)
        requires
            self.wf(),
            p@.within(NUM_LIMIT as int, DEN_LIMIT as int),
        ensures
            match image {
                Some(q) => self.homography().project(p@) == Some(q@),
                None => self.homography().project(p@) is None,
            },
    {
        let ghost num = 0x10_0000_0000int;
        let ghost den = 0x40_0000int;
        let ghost lin = 0x2_0000_0000_0000_0000int;
        let ghost con = 0x4000_0000_0000_0000_0000int;
        let ghost cross = 0x400_0000_0000_0000int;
        let ghost square = 0x1000_0000_0000int;
        let xs: i128 = mul_within(p.x.num, p.y.den, Ghost(num), Ghost(den));
        let ys: i128 = mul_within(p.y.num, p.x.den, Ghost(num), Ghost(den));
        let zs: i128 = mul_within(p.x.den, p.y.den, Ghost(den), Ghost(den));
        let nx: i128 = mul_within(self.a, xs, Ghost(lin), Ghost(cross)) + mul_within(
            self.b,
            ys,
            Ghost(lin),
            Ghost(cross),
        ) + mul_within(self.c, zs, Ghost(con), Ghost(square));
        let ny: i128 = mul_within(self.d, xs, Ghost(lin), Ghost(cross)) + mul_within(
            self.e,
            ys,
            Ghost(lin),
            Ghost(cross),
        ) + mul_within(self.f, zs, Ghost(con), Ghost(square));
        let w: i128 = mul_within(self.g, xs, Ghost(lin), Ghost(cross)) + mul_within(
            self.h,
            ys,
            Ghost(lin),
            Ghost(cross),
        ) + mul_within(self.k, zs, Ghost(con), Ghost(square));
        if w > 0 {
            Some(Point { x: Ratio { num: nx, den: w }, y: Ratio { num: ny, den: w } })
        } else if w < 0 {
            Some(Point { x: Ratio { num: -nx, den: -w }, y: Ratio { num: -ny, den: -w } })
        } else {
            None
        }
    }

    /// The images of `points`, in their order. There is no result if one
    /// of them goes to infinity.
    pub fn project(&self, points: &Vec<Point>) -> (images: Result<
        Vec<Point>,
        DegenerateGeometryError,
    >)
        requires
            self.wf(),
            forall|i: int|
                0 <= i < points@.len() ==> (#[trigger] points@[i])@.within(
                    NUM_LIMIT as int,
                    DEN_LIMIT as int,
                ),
        ensures
            match images {
                Ok(out) => {
                    &&& out@.len() == points@.len()
                    &&& forall|i: int|
                        0 <= i < points@.len() ==> self.homography().project(
                            (#[trigger] points@[i])@,
                        ) == Some(out@[i]@)
                },
                Err(error) => {
                    &&& error == DegenerateGeometryError::PointAtInfinity
                    &&& exists|i: int|
                        0 <= i < points@.len() && self.homography().project(
                            (#[trigger] points@[i])@,
                        ) is None
                },
            },
    {
        let mut out: Vec<Point> = Vec::new();
        let mut i: usize = 0;
        while i < points.len()
            invariant
                self.wf(),
                i <= points.len(),
                out@.len() == i,
                forall|j: int|
                    0 <= j < points@.len() ==> (#[trigger] points@[j])@.within(
                        NUM_LIMIT as int,
                        DEN_LIMIT as int,
                    ),
                forall|j: int|
                    0 <= j < i ==> self.homography().project((#[trigger] points@[j])@) == Some(
                        out@[j]@,
                    ),
            decreases points.len() - i,
        {
            match self.project_point(points[i]) {
                Some(q) => {
                    out.push(q);
                },
                None => {
                    return Err(DegenerateGeometryError::PointAtInfinity);
                },
            }
            i = i + 1;
        }
        Ok(out)
    }
}

} // verus!
