//! Exact rational coordinates, points and four-cornered rectangles, each
//! with the mathematical value that contracts speak of.

use crate::arith::{lemma_mul_flip, lemma_mul_pairs, lemma_mul_sum, mul_within};
use vstd::arithmetic::div_mod::{lemma_fundamental_div_mod, lemma_fundamental_div_mod_converse};
use vstd::prelude::*;

verus! {

/// The mathematical fraction `num / den`.
pub struct Frac {
    pub num: int,
    pub den: int,
}

impl Frac {
    /// A fraction stands for a number when its denominator is positive.
    pub open spec fn wf(self) -> bool {
        self.den > 0
    }

    /// The two fractions stand for the same number.
    pub open spec fn same(self, other: Frac) -> bool {
        self.num * other.den == other.num * self.den
    }

    /// `self` stands for a number strictly below that of `other`.
    pub open spec fn below(self, other: Frac) -> bool {
        self.num * other.den < other.num * self.den
    }

    /// The integer `v` over one.
    pub open spec fn whole(v: int) -> Frac {
        Frac { num: v, den: 1 }
    }

    /// The sum of the two fractions.
    pub open spec fn plus(self, other: Frac) -> Frac {
        Frac { num: self.num * other.den + other.num * self.den, den: self.den * other.den }
    }

    /// The difference of the two fractions.
    pub open spec fn minus(self, other: Frac) -> Frac {
        Frac { num: self.num * other.den - other.num * self.den, den: self.den * other.den }
    }

    /// The product of the two fractions.
    pub open spec fn times(self, other: Frac) -> Frac {
        Frac { num: self.num * other.num, den: self.den * other.den }
    }

    /// Numerator and denominator both fit the given magnitudes.
    pub open spec fn within(self, num_limit: int, den_limit: int) -> bool {
        -num_limit <= self.num <= num_limit && 0 < self.den <= den_limit
    }
}

/// Fractions that stand for the same numbers have sums that stand for
/// the same number.
pub proof fn lemma_plus_same(a: Frac, b: Frac, c: Frac, d: Frac)
    requires
        a.wf(),
        b.wf(),
        c.wf(),
        d.wf(),
        a.same(c),
        b.same(d),
    ensures
        a.plus(b).wf(),
        a.plus(b).same(c.plus(d)),
{
    let (an, ad, bn, bd) = (a.num, a.den, b.num, b.den);
    let (cn, cd, dn, dd) = (c.num, c.den, d.num, d.den);
    assert(ad * bd > 0) by (nonlinear_arith)
        requires
            ad > 0,
            bd > 0,
    ;
    lemma_mul_pairs(an, bd, cd, dd);
    lemma_mul_pairs(bn, ad, dd, cd);
    lemma_mul_pairs(cn, dd, ad, bd);
    lemma_mul_pairs(dn, cd, bd, ad);
    lemma_mul_sum(an * bd, bn * ad, cd * dd);
    lemma_mul_sum(cn * dd, dn * cd, ad * bd);
    lemma_mul_flip(bd, dd);
    lemma_mul_flip(ad, cd);
    lemma_mul_flip(cd, dd);
    lemma_mul_flip(ad, bd);
}

/// The sum of two fractions over one denominator is the sum of their
/// numerators over it.
pub proof fn lemma_plus_common(p: int, q: int, den: int)
    by (nonlinear_arith)
    requires
        den > 0,
    ensures
        (Frac { num: p, den }).plus(Frac { num: q, den }).same(Frac { num: p + q, den }),
{
}

/// The difference of two fractions over one denominator is the difference
/// of their numerators over it.
pub proof fn lemma_minus_common(p: int, q: int, den: int)
    by (nonlinear_arith)
    requires
        den > 0,
    ensures
        (Frac { num: p, den }).minus(Frac { num: q, den }).wf(),
        (Frac { num: p, den }).minus(Frac { num: q, den }).same(Frac { num: p - q, den }),
{
}

/// Standing for the same number carries over a fraction in the middle.
pub proof fn lemma_same_transitive(a: Frac, b: Frac, c: Frac)
    by (nonlinear_arith)
    requires
        b.wf(),
        a.same(b),
        b.same(c),
    ensures
        a.same(c),
{
}

/// A point of the plane with fraction coordinates.
pub struct FracPoint {
    pub x: Frac,
    pub y: Frac,
}

impl FracPoint {
    /// Both coordinates stand for numbers.
    pub open spec fn wf(self) -> bool {
        self.x.wf() && self.y.wf()
    }

    /// The two points are the same place.
    pub open spec fn same(self, other: FracPoint) -> bool {
        self.x.same(other.x) && self.y.same(other.y)
    }

    /// The point with integer coordinates `(x, y)`.
    pub open spec fn at(x: int, y: int) -> FracPoint {
        FracPoint { x: Frac::whole(x), y: Frac::whole(y) }
    }

    /// Both coordinates fit the given magnitudes.
    pub open spec fn within(self, num_limit: int, den_limit: int) -> bool {
        self.x.within(num_limit, den_limit) && self.y.within(num_limit, den_limit)
    }
}

/// Four corners in the order top-left, top-right, bottom-right, bottom-left.
pub struct FracRect {
    pub tl: FracPoint,
    pub tr: FracPoint,
    pub br: FracPoint,
    pub bl: FracPoint,
}

impl FracRect {
    /// All four corners have well-formed coordinates.
    pub open spec fn wf(self) -> bool {
        self.tl.wf() && self.tr.wf() && self.br.wf() && self.bl.wf()
    }

    /// The extent along the top edge, from the top-left corner to the
    /// top-right one.
    pub open spec fn width(self) -> Frac {
        self.tr.x.minus(self.tl.x)
    }

    /// The extent along the left edge, from the top-left corner to the
    /// bottom-left one.
    pub open spec fn height(self) -> Frac {
        self.bl.y.minus(self.tl.y)
    }

    /// The axis-aligned rectangle from `left` to `right` and `top` to `bottom`.
    pub open spec fn spanning(left: Frac, right: Frac, top: Frac, bottom: Frac) -> FracRect {
        FracRect {
            tl: FracPoint { x: left, y: top },
            tr: FracPoint { x: right, y: top },
            br: FracPoint { x: right, y: bottom },
            bl: FracPoint { x: left, y: bottom },
        }
    }

    /// The rectangle drawn out along its height to `scale_num / scale_den`
    /// of it, by the same amount at the top and at the bottom: half of
    /// what the scale adds to the height. The height is measured down the
    /// left edge; all four corners keep their first coordinate, and the
    /// new second coordinates stand over one denominator.
    pub open spec fn stretched(self, scale_num: int, scale_den: int) -> FracRect {
        let top = self.tl.y;
        let bottom = self.bl.y;
        let den = top.den * bottom.den * (2 * scale_den);
        let grow = (bottom.num * top.den - top.num * bottom.den) * (scale_num - scale_den);
        let new_top = Frac { num: top.num * bottom.den * (2 * scale_den) - grow, den };
        let new_bottom = Frac { num: bottom.num * top.den * (2 * scale_den) + grow, den };
        FracRect {
            tl: FracPoint { x: self.tl.x, y: new_top },
            tr: FracPoint { x: self.tr.x, y: new_top },
            br: FracPoint { x: self.br.x, y: new_bottom },
            bl: FracPoint { x: self.bl.x, y: new_bottom },
        }
    }

    /// Every coordinate fits the given magnitudes.
    pub open spec fn within(self, num_limit: int, den_limit: int) -> bool {
        &&& self.tl.within(num_limit, den_limit)
        &&& self.tr.within(num_limit, den_limit)
        &&& self.br.within(num_limit, den_limit)
        &&& self.bl.within(num_limit, den_limit)
    }
}

/// Drawing a rectangle out along its height moves its top up and its
/// bottom down by the same amount, half of what the scale adds to the
/// height: `(scale - 1) / 2` of the height. The first coordinates stay,
/// and the corners of each of the two edges stay level.
pub proof fn theorem_stretched_is_symmetric(r: FracRect, scale_num: int, scale_den: int)
    requires
        r.tl.y.wf(),
        r.bl.y.wf(),
        scale_den > 0,
    ensures
        ({
            let tall = r.stretched(scale_num, scale_den);
            let moved = r.height().times(Frac { num: scale_num - scale_den, den: 2 * scale_den });
            &&& tall.tl.y.wf()
            &&& tall.bl.y.wf()
            &&& tall.tl.y.same(r.tl.y.minus(moved))
            &&& tall.bl.y.same(r.bl.y.plus(moved))
            &&& tall.tr.y == tall.tl.y
            &&& tall.br.y == tall.bl.y
            &&& tall.tl.x == r.tl.x
            &&& tall.tr.x == r.tr.x
            &&& tall.br.x == r.br.x
            &&& tall.bl.x == r.bl.x
        }),
{
    let (tn, td, bn, bd) = (r.tl.y.num, r.tl.y.den, r.bl.y.num, r.bl.y.den);
    let twice = 2 * scale_den;
    let tall = r.stretched(scale_num, scale_den);
    let moved = r.height().times(Frac { num: scale_num - scale_den, den: 2 * scale_den });
    let grow = (bn * td - tn * bd) * (scale_num - scale_den);
    let unit = td * bd * twice;
    let top = tn * bd * twice - grow;
    let bottom = bn * td * twice + grow;
    assert(unit > 0) by (nonlinear_arith)
        requires
            unit == td * bd * twice,
            td > 0,
            bd > 0,
            twice > 0,
    ;
    // The height of `r` stands over `bd * td`, which is `unit` but for
    // the order of its factors.
    assert((bd * td) * twice == unit) by (nonlinear_arith)
        requires
            unit == td * bd * twice,
    ;
    let lower = r.tl.y.minus(moved);
    assert(lower.den == td * unit);
    assert(lower.num == td * top) by {
        assert(tn * unit == td * (tn * bd * twice)) by (nonlinear_arith)
            requires
                unit == td * bd * twice,
        ;
        lemma_mul_flip(grow, td);
        lemma_mul_sum(tn * bd * twice, -grow, td);
        lemma_mul_flip(tn * bd * twice - grow, td);
        lemma_mul_flip(tn * bd * twice, td);
        lemma_mul_flip(-grow, td);
        assert((-grow) * td == -(grow * td)) by (nonlinear_arith);
    }
    assert(top * (td * unit) == (td * top) * unit) by (nonlinear_arith);
    let upper = r.bl.y.plus(moved);
    assert(upper.den == bd * unit);
    assert(upper.num == bd * bottom) by {
        assert(bn * unit == bd * (bn * td * twice)) by (nonlinear_arith)
            requires
                unit == td * bd * twice,
        ;
        lemma_mul_flip(grow, bd);
        lemma_mul_sum(bn * td * twice, grow, bd);
        lemma_mul_flip(bn * td * twice + grow, bd);
        lemma_mul_flip(bn * td * twice, bd);
    }
    assert(bottom * (bd * unit) == (bd * bottom) * unit) by (nonlinear_arith);
}

/// The whole number nearest to the fraction on the side of zero.
pub open spec fn truncated(f: Frac) -> int {
    if f.num >= 0 {
        f.num / f.den
    } else {
        -((-f.num) / f.den)
    }
}

/// `v`, or the nearest number that a 32-bit coordinate can hold.
pub open spec fn saturated(v: int) -> int {
    if v < i32::MIN {
        i32::MIN as int
    } else if v > i32::MAX {
        i32::MAX as int
    } else {
        v
    }
}

/// A rational number `num / den`, kept exactly as the pair it was built from.
#[derive(Clone, Copy, Debug, PartialEq, Eq, Structural)]
pub struct Ratio {
    pub num: i128,
    pub den: i128,
}

impl View for Ratio {
    type V = Frac;

    open spec fn view(&self) -> Frac {
        Frac { num: self.num as int, den: self.den as int }
    }
}

impl Ratio {
    /// The ratio `num / den`.
    pub fn new(num: i128, den: i128) -> (r: Ratio)
        requires
            den > 0,
        ensures
            r@ == (Frac { num: num as int, den: den as int }),
    {
        Ratio { num, den }
    }

    /// The integer `v` as a ratio over one.
    pub fn from_int(v: i64) -> (r: Ratio)
        ensures
            r@ == Frac::whole(v as int),
    {
        Ratio { num: v as i128, den: 1 }
    }

    /// The ratio cut down to a whole number towards zero, and to the
    /// nearest 32-bit number where it is beyond them.
    pub fn to_pixel(&self) -> (v: i32)
        requires
            self@.wf(),
        ensures
            v == saturated(truncated(self@)),
    {
        if self.num >= 0 {
            let q: i128 = self.num / self.den;
            if q > i32::MAX as i128 {
                i32::MAX
            } else {
                q as i32
            }
        } else {
            // The magnitude is one more than `rest`, which always fits.
            let rest: i128 = -(self.num + 1);
            let q: i128 = rest / self.den;
            let r: i128 = rest % self.den;
            proof {
                lemma_fundamental_div_mod(rest as int, self.den as int);
                lemma_mul_flip(self.den as int, q as int);
                if r == self.den - 1 {
                    lemma_mul_sum(q as int, 1, self.den as int);
                    lemma_fundamental_div_mod_converse(-self.num, self.den as int, q + 1, 0);
                } else {
                    lemma_fundamental_div_mod_converse(-self.num, self.den as int, q as int, r + 1);
                }
            }
            let magnitude_less_one: i128 = if r == self.den - 1 {
                q
            } else {
                q - 1
            };
            // `magnitude_less_one + 1` is the magnitude of the result.
            if magnitude_less_one >= i32::MAX as i128 {
                i32::MIN
            } else {
                (-(magnitude_less_one + 1)) as i32
            }
        }
    }
}

/// A point of the plane with exact coordinates.
#[derive(Clone, Copy, Debug, PartialEq, Eq, Structural)]
pub struct Point {
    pub x: Ratio,
    pub y: Ratio,
}

impl View for Point {
    type V = FracPoint;

    open spec fn view(&self) -> FracPoint {
        FracPoint { x: self.x@, y: self.y@ }
    }
}

impl Point {
    /// The point with integer coordinates `(x, y)`.
    pub fn at(x: i32, y: i32) -> (p: Point)
        ensures
            p@ == FracPoint::at(x as int, y as int),
    {
        Point { x: Ratio::from_int(x as i64), y: Ratio::from_int(y as i64) }
    }
}

/// Four corners in the order top-left, top-right, bottom-right, bottom-left.
#[derive(Clone, Copy, Debug, PartialEq, Eq, Structural)]
pub struct IbRectangle {
    pub tl: Point,
    pub tr: Point,
    pub br: Point,
    pub bl: Point,
}

impl View for IbRectangle {
    type V = FracRect;

    open spec fn view(&self) -> FracRect {
        FracRect { tl: self.tl@, tr: self.tr@, br: self.br@, bl: self.bl@ }
    }
}

impl IbRectangle {
    /// The rectangle drawn out along its height to `scale_num / scale_den`
    /// of it, half of the change at the top and half at the bottom.
    pub fn scale_height(&self, scale_num: u16, scale_den: u16) -> (r: IbRectangle)
        requires
            scale_den > 0,
            self@.tl.y.within(0x1_0000_0000, 0x1_0000),
            self@.bl.y.within(0x1_0000_0000, 0x1_0000),
        ensures
            r@ == self@.stretched(scale_num as int, scale_den as int),
    {
        let ghost num = 0x1_0000_0000int;
        let ghost den = 0x1_0000int;
        let top = self.tl.y;
        let bottom = self.bl.y;
        let twice: i128 = 2 * (scale_den as i128);
        let both: i128 = mul_within(top.den, bottom.den, Ghost(den), Ghost(den));
        let unit: i128 = mul_within(both, twice, Ghost(0x1_0000_0000int), Ghost(0x2_0000int));
        let extent: i128 = mul_within(bottom.num, top.den, Ghost(num), Ghost(den)) - mul_within(
            top.num,
            bottom.den,
            Ghost(num),
            Ghost(den),
        );
        let grow: i128 = mul_within(
            extent,
            (scale_num as i128) - (scale_den as i128),
            Ghost(0x2_0000_0000_0000int),
            Ghost(0x1_0000int),
        );
        let top_part: i128 = mul_within(
            mul_within(top.num, bottom.den, Ghost(num), Ghost(den)),
            twice,
            Ghost(0x1_0000_0000_0000int),
            Ghost(0x2_0000int),
        );
        let bottom_part: i128 = mul_within(
            mul_within(bottom.num, top.den, Ghost(num), Ghost(den)),
            twice,
            Ghost(0x1_0000_0000_0000int),
            Ghost(0x2_0000int),
        );
        let new_top = Ratio { num: top_part - grow, den: unit };
        let new_bottom = Ratio { num: bottom_part + grow, den: unit };
        IbRectangle {
            tl: Point { x: self.tl.x, y: new_top },
            tr: Point { x: self.tr.x, y: new_top },
            br: Point { x: self.br.x, y: new_bottom },
            bl: Point { x: self.bl.x, y: new_bottom },
        }
    }

    /// A rectangle from four integer corners, each an `(x, y)` pair.
    pub fn new(
        top_left: (i32, i32),
        top_right: (i32, i32),
        bottom_right: (i32, i32),
        bottom_left: (i32, i32),
    ) -> (r: IbRectangle)
        ensures
            r@.tl == FracPoint::at(top_left.0 as int, top_left.1 as int),
            r@.tr == FracPoint::at(top_right.0 as int, top_right.1 as int),
            r@.br == FracPoint::at(bottom_right.0 as int, bottom_right.1 as int),
            r@.bl == FracPoint::at(bottom_left.0 as int, bottom_left.1 as int),
    {
        IbRectangle {
            tl: Point::at(top_left.0, top_left.1),
            tr: Point::at(top_right.0, top_right.1),
            br: Point::at(bottom_right.0, bottom_right.1),
            bl: Point::at(bottom_left.0, bottom_left.1),
        }
    }
}

} // verus!
