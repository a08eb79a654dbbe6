//! Conversions between the library's exact values and the whole-pixel
//! points that a drawing surface takes.

use crate::geometry::{saturated, truncated, FracPoint, IbRectangle, Point};
use vstd::prelude::*;

verus! {

/// A value that can be made from a `T`.
pub trait IbFrom<T>: Sized {
    /// Whether `value` can be converted.
    spec fn accepts(value: T) -> bool;

    /// Whether `out` is what `value` converts to.
    spec fn converts(value: T, out: Self) -> bool;

    /// Converts `value`.
    fn ib_from(value: T) -> (out: Self)
        requires
            Self::accepts(value),
        ensures
            Self::converts(value, out),
    ;
}

/// A value that can be turned into a `T`.
pub trait IbInto<T>: Sized {
    /// Whether this value can be converted.
    spec fn accepted(self) -> bool;

    /// Whether `out` is what this value converts to.
    spec fn converts_into(self, out: T) -> bool;

    /// Converts this value.
    fn ib_into(self) -> (out: T)
        requires
            self.accepted(),
        ensures
            self.converts_into(out),
    ;
}

impl<T, U: IbFrom<T>> IbInto<U> for T {
    open spec fn accepted(self) -> bool {
        U::accepts(self)
    }

    open spec fn converts_into(self, out: U) -> bool {
        U::converts(self, out)
    }

    fn ib_into(self) -> (out: U) {
        U::ib_from(self)
    }
}

/// A point of a drawing surface, in whole pixels.
#[derive(Clone, Copy, Debug, PartialEq, Eq, Structural)]
pub struct PixelPoint {
    pub x: i32,
    pub y: i32,
}

/// The pixel that holds the point: each coordinate cut down towards zero,
/// and to the nearest 32-bit number where it is beyond them.
pub open spec fn pixel_of(p: FracPoint) -> PixelPoint {
    PixelPoint { x: saturated(truncated(p.x)) as i32, y: saturated(truncated(p.y)) as i32 }
}

impl IbFrom<Point> for PixelPoint {
    open spec fn accepts(value: Point) -> bool {
        value@.wf()
    }

    open spec fn converts(value: Point, out: PixelPoint) -> bool {
        out == pixel_of(value@)
    }

    fn ib_from(value: Point) -> (out: PixelPoint) {
        PixelPoint { x: value.x.to_pixel(), y: value.y.to_pixel() }
    }
}

impl IbFrom<PixelPoint> for Point {
    open spec fn accepts(value: PixelPoint) -> bool {
        true
    }

    open spec fn converts(value: PixelPoint, out: Point) -> bool {
        out@ == FracPoint::at(value.x as int, value.y as int)
    }

    fn ib_from(value: PixelPoint) -> (out: Point) {
        Point::at(value.x, value.y)
    }
}

impl IbFrom<(i32, i32)> for Point {
    open spec fn accepts(value: (i32, i32)) -> bool {
        true
    }

    open spec fn converts(value: (i32, i32), out: Point) -> bool {
        out@ == FracPoint::at(value.0 as int, value.1 as int)
    }

    fn ib_from(value: (i32, i32)) -> (out: Point) {
        Point::at(value.0, value.1)
    }
}

impl IbFrom<Vec<Point>> for Vec<PixelPoint> {
    open spec fn accepts(value: Vec<Point>) -> bool {
        forall|i: int| 0 <= i < value@.len() ==> (#[trigger] value@[i])@.wf()
    }

    open spec fn converts(value: Vec<Point>, out: Vec<PixelPoint>) -> bool {
        &&& out@.len() == value@.len()
        &&& forall|i: int| 0 <= i < value@.len() ==> #[trigger] out@[i] == pixel_of(value@[i]@)
    }

    fn ib_from(value: Vec<Point>) -> (out: Vec<PixelPoint>) {
        let mut out: Vec<PixelPoint> = Vec::new();
        let mut i: usize = 0;
        while i < value.len()
            invariant
                i <= value.len(),
                out@.len() == i,
                forall|j: int| 0 <= j < value@.len() ==> (#[trigger] value@[j])@.wf(),
                forall|j: int| 0 <= j < i ==> #[trigger] out@[j] == pixel_of(value@[j]@),
            decreases value.len() - i,
        {
            let pixel = PixelPoint::ib_from(value[i]);
            out.push(pixel);
            i = i + 1;
        }
        out
    }
}

impl IbFrom<Vec<PixelPoint>> for Vec<Point> {
    open spec fn accepts(value: Vec<PixelPoint>) -> bool {
        true
    }

    open spec fn converts(value: Vec<PixelPoint>, out: Vec<Point>) -> bool {
        &&& out@.len() == value@.len()
        &&& forall|i: int|
            0 <= i < value@.len() ==> (#[trigger] out@[i])@ == FracPoint::at(
                value@[i].x as int,
                value@[i].y as int,
            )
    }

    fn ib_from(value: Vec<PixelPoint>) -> (out: Vec<Point>) {
        let mut out: Vec<Point> = Vec::new();
        let mut i: usize = 0;
        while i < value.len()
            invariant
                i <= value.len(),
                out@.len() == i,
                forall|j: int|
                    0 <= j < i ==> (#[trigger] out@[j])@ == FracPoint::at(
                        value@[j].x as int,
                        value@[j].y as int,
                    ),
            decreases value.len() - i,
        {
            out.push(Point::at(value[i].x, value[i].y));
            i = i + 1;
        }
        out
    }
}

impl IbFrom<IbRectangle> for Vec<Point> {
    open spec fn accepts(value: IbRectangle) -> bool {
        true
    }

    open spec fn converts(value: IbRectangle, out: Vec<Point>) -> bool {
        out@ == seq![value.tl, value.tr, value.br, value.bl]
    }

    fn ib_from(value: IbRectangle) -> (out: Vec<Point>) {
        let mut out: Vec<Point> = Vec::new();
        out.push(value.tl);
        out.push(value.tr);
        out.push(value.br);
        out.push(value.bl);
        assert(out@ =~= seq![value.tl, value.tr, value.br, value.bl]);
        out
    }
}

impl IbFrom<Vec<Point>> for IbRectangle {
    open spec fn accepts(value: Vec<Point>) -> bool {
        value@.len() >= 4
    }

    open spec fn converts(value: Vec<Point>, out: IbRectangle) -> bool {
        out == (IbRectangle { tl: value@[0], tr: value@[1], br: value@[2], bl: value@[3] })
    }

    fn ib_from(value: Vec<Point>) -> (out: IbRectangle) {
        IbRectangle { tl: value[0], tr: value[1], br: value[2], bl: value[3] }
    }
}

} // verus!
