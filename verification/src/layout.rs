//! The mathematical layout of a flat keyboard: which keys are black, how
//! black keys group into clusters, and the rectangle each key occupies.

use crate::arith::{lemma_mul_flip, lemma_mul_pairs, lemma_mul_strict, lemma_mul_sum};
use crate::geometry::{
    lemma_minus_common, lemma_plus_common, lemma_plus_same, lemma_same_transitive, Frac, FracRect,
};
use crate::pattern::key_is_black;
use vstd::prelude::*;

verus! {

/// A keyboard of `n_keys` keys drawn into a `width` by `height` image, its
/// lowest key being the absolute key `start_key`.
pub struct Keyboard {
    pub width: int,
    pub height: int,
    pub start_key: int,
    pub n_keys: int,
}

impl Keyboard {
    /// The configuration is one a keyboard can be built from.
    pub open spec fn wf(self) -> bool {
        self.width > 0 && self.height > 0 && self.start_key >= 0 && self.n_keys > 0
    }

    /// Key `key` is a key of this keyboard.
    pub open spec fn has_key(self, key: int) -> bool {
        0 <= key < self.n_keys
    }

    /// Whether key `key` is black.
    pub open spec fn is_black(self, key: int) -> bool {
        key_is_black(self.start_key, key)
    }

    /// How many of the keys below `n` are white.
    pub open spec fn whites_before(self, n: int) -> int
        decreases n,
    {
        if n <= 0 {
            0
        } else {
            self.whites_before(n - 1) + if self.is_black(n - 1) {
                0int
            } else {
                1int
            }
        }
    }

    /// How many of the keys below `n` are black.
    pub open spec fn blacks_before(self, n: int) -> int
        decreases n,
    {
        if n <= 0 {
            0
        } else {
            self.blacks_before(n - 1) + if self.is_black(n - 1) {
                1int
            } else {
                0int
            }
        }
    }

    /// The number of white keys of the keyboard.
    pub open spec fn whites(self) -> int {
        self.whites_before(self.n_keys)
    }

    /// The position of `key` among the keys of its own colour.
    pub open spec fn type_index(self, key: int) -> int {
        if self.is_black(key) {
            self.blacks_before(key)
        } else {
            self.whites_before(key)
        }
    }

    /// The leftmost black key of the cluster of black key `key`: the keys
    /// two apart going down from `key`, as long as they are black.
    pub open spec fn cluster_first(self, key: int) -> int
        decreases key,
    {
        if key >= 2 && self.is_black(key - 2) {
            self.cluster_first(key - 2)
        } else {
            key
        }
    }

    /// The rightmost black key of the cluster of black key `key`; the
    /// cluster stops where the keyboard ends.
    pub open spec fn cluster_last(self, key: int) -> int
        decreases self.n_keys - key,
    {
        if key + 2 < self.n_keys && self.is_black(key + 2) {
            self.cluster_last(key + 2)
        } else {
            key
        }
    }

    /// The number of black keys in the cluster of `key`.
    pub open spec fn cluster_size(self, key: int) -> int {
        (self.cluster_last(key) - self.cluster_first(key)) / 2 + 1
    }

    /// The position of `key` within its cluster, counted from the left.
    pub open spec fn cluster_rank(self, key: int) -> int {
        (key - self.cluster_first(key)) / 2
    }

    /// The cluster of `key` has a white key to its left on the keyboard.
    pub open spec fn bounded_left(self, key: int) -> bool {
        self.cluster_first(key) >= 1
    }

    /// The cluster of `key` has a white key to its right on the keyboard.
    pub open spec fn bounded_right(self, key: int) -> bool {
        self.cluster_last(key) + 1 < self.n_keys
    }

    /// The number of white keys of the keyboard next to a black key of the
    /// cluster of `key`: those between its black keys, and one at each end
    /// where the keyboard has one.
    pub open spec fn cluster_whites(self, key: int) -> int {
        self.cluster_size(key) - 1 + if self.bounded_left(key) {
            1int
        } else {
            0int
        } + if self.bounded_right(key) {
            1int
        } else {
            0int
        }
    }

    /// The position, among white keys, of the leftmost white key that bounds
    /// the cluster of `key`.
    pub open spec fn cluster_anchor(self, key: int) -> int {
        if self.bounded_left(key) {
            self.whites_before(self.cluster_first(key) - 1)
        } else {
            0
        }
    }

    /// The rectangle of white key `key`: one white-key width wide, as many
    /// widths from the left as there are white keys below it, and as high
    /// as the keyboard.
    pub open spec fn white_rect(self, key: int) -> FracRect {
        let index = self.whites_before(key);
        FracRect::spanning(
            Frac { num: self.width * index, den: self.whites() },
            Frac { num: self.width * (index + 1), den: self.whites() },
            Frac::whole(0),
            Frac::whole(self.height),
        )
    }

    /// The left edge of black key `key`, in units of
    /// `width / (whites * (2 * size + 1))`: the span of its cluster is cut
    /// into `2 * size + 1` segments and the key starts at segment
    /// `2 * rank + 1`.
    pub open spec fn black_offset(self, key: int) -> int {
        self.cluster_anchor(key) * (2 * self.cluster_size(key) + 1) + self.cluster_whites(key) * (2
            * self.cluster_rank(key) + 1)
    }

    /// The rectangle of black key `key`: half a white-key width wide, and
    /// 13/20 of the keyboard's height, from the top.
    pub open spec fn black_rect(self, key: int) -> FracRect {
        let segments = 2 * self.cluster_size(key) + 1;
        let offset = self.black_offset(key);
        let unit = self.whites() * segments;
        FracRect::spanning(
            Frac { num: self.width * offset, den: unit },
            Frac { num: self.width * (2 * offset + segments), den: 2 * unit },
            Frac::whole(0),
            Frac { num: 13 * self.height, den: 20 },
        )
    }

    /// The rectangle that key `key` occupies in the flat keyboard image.
    pub open spec fn rect(self, key: int) -> FracRect {
        if self.is_black(key) {
            self.black_rect(key)
        } else {
            self.white_rect(key)
        }
    }

    /// The widths of the white keys below `n`, added up.
    pub open spec fn white_widths(self, n: int) -> Frac
        decreases n,
    {
        if n <= 0 {
            Frac::whole(0)
        } else if self.is_black(n - 1) {
            self.white_widths(n - 1)
        } else {
            self.white_widths(n - 1).plus(self.rect(n - 1).width())
        }
    }

    /// The left edge of the span of the cluster of black key `key`.
    pub open spec fn span_left(self, key: int) -> Frac {
        Frac { num: self.width * self.cluster_anchor(key), den: self.whites() }
    }

    /// The right edge of the span of the cluster of black key `key`.
    pub open spec fn span_right(self, key: int) -> Frac {
        Frac {
            num: self.width * (self.cluster_anchor(key) + self.cluster_whites(key)),
            den: self.whites(),
        }
    }
}

/// A black key has a white key on either side.
pub proof fn lemma_black_neighbours(kb: Keyboard, key: int)
    requires
        kb.start_key >= 0,
        key >= 0,
        kb.is_black(key),
    ensures
        !kb.is_black(key + 1),
        key >= 1 ==> !kb.is_black(key - 1),
{
}

/// No four keys two apart are all black.
pub proof fn lemma_three_in_a_row(kb: Keyboard, key: int)
    requires
        kb.start_key >= 0,
        key >= 0,
    ensures
        !(kb.is_black(key) && kb.is_black(key + 2) && kb.is_black(key + 4) && kb.is_black(
            key + 6,
        )),
{
}

/// The counts of white and black keys below `n` add up to `n`.
pub proof fn lemma_counts(kb: Keyboard, n: int)
    requires
        n >= 0,
    ensures
        0 <= kb.whites_before(n) <= n,
        0 <= kb.blacks_before(n) <= n,
        kb.whites_before(n) + kb.blacks_before(n) == n,
    decreases n,
{
    if n > 0 {
        lemma_counts(kb, n - 1);
    }
}

/// The count of white keys does not fall as more keys are counted.
pub proof fn lemma_whites_monotone(kb: Keyboard, i: int, j: int)
    requires
        0 <= i <= j,
    ensures
        kb.whites_before(i) <= kb.whites_before(j),
    decreases j - i,
{
    if i < j {
        lemma_whites_monotone(kb, i, j - 1);
    }
}

/// A white key counts among the white keys of the keyboard.
pub proof fn lemma_white_index(kb: Keyboard, key: int)
    requires
        kb.has_key(key),
        !kb.is_black(key),
    ensures
        0 <= kb.whites_before(key) < kb.whites(),
{
    lemma_counts(kb, key);
    lemma_whites_monotone(kb, key + 1, kb.n_keys);
}

/// The shape of a cluster: it starts at most two black keys below `key`,
/// ends at most two above, and holds one, two or three black keys.
pub proof fn lemma_cluster(kb: Keyboard, key: int)
    requires
        kb.start_key >= 0,
        kb.has_key(key),
        kb.is_black(key),
    ensures
        ({
            let first = kb.cluster_first(key);
            let last = kb.cluster_last(key);
            &&& 0 <= first <= key <= last < kb.n_keys
            &&& first == key || first == key - 2 || first == key - 4
            &&& last == key || last == key + 2 || last == key + 4
            &&& last - first <= 4
            &&& kb.is_black(first)
            &&& kb.is_black(last)
            &&& 1 <= kb.cluster_size(key) <= 3
            &&& 0 <= kb.cluster_rank(key) < kb.cluster_size(key)
            &&& kb.cluster_size(key) - 1 <= kb.cluster_whites(key) <= kb.cluster_size(key) + 1
        }),
{
    reveal_with_fuel(Keyboard::cluster_first, 4);
    reveal_with_fuel(Keyboard::cluster_last, 4);
    if key >= 6 {
        lemma_three_in_a_row(kb, key - 6);
    }
    if key >= 4 {
        lemma_three_in_a_row(kb, key - 4);
    }
    if key >= 2 {
        lemma_three_in_a_row(kb, key - 2);
    }
    lemma_three_in_a_row(kb, key);
}

/// On a keyboard of at most 65536 keys in an image of at most 32767 by
/// 32767, the rectangle of a key has numerators of at most 2^36 and
/// denominators of at most 2^22. Its top is zero.
pub proof fn lemma_rect_within(kb: Keyboard, key: int)
    requires
        kb.wf(),
        kb.has_key(key),
        kb.whites() > 0,
        kb.width <= 0x7fff,
        kb.height <= 0x7fff,
        kb.n_keys <= 0x1_0000,
    ensures
        kb.rect(key).wf(),
        kb.rect(key).within(0x10_0000_0000, 0x40_0000),
        kb.rect(key).tl.y == Frac::whole(0),
        kb.rect(key).bl.y.within(0x6_7ff3, 20),
        kb.rect(key).bl.y.num >= 0,
{
    let whites = kb.whites();
    lemma_counts(kb, kb.n_keys);
    lemma_counts(kb, key);
    if kb.is_black(key) {
        lemma_cluster(kb, key);
        let first = kb.cluster_first(key);
        let anchor = kb.cluster_anchor(key);
        let span = kb.cluster_whites(key);
        let size = kb.cluster_size(key);
        let rank = kb.cluster_rank(key);
        let segments = 2 * size + 1;
        let offset = kb.black_offset(key);
        if first >= 1 {
            lemma_counts(kb, first - 1);
        }
        assert(0 <= offset <= 7 * anchor + 20) by (nonlinear_arith)
            requires
                offset == anchor * segments + span * (2 * rank + 1),
                0 <= anchor,
                3 <= segments <= 7,
                0 <= span <= 4,
                0 <= rank <= 2,
        ;
        assert(0 < whites * segments <= 7 * whites) by (nonlinear_arith)
            requires
                0 < whites,
                3 <= segments <= 7,
        ;
        assert(0 <= kb.width * offset <= 0x7fff * (7 * 0x1_0000 + 20) && 0 <= kb.width * (2
            * offset + segments) <= 0x7fff * (14 * 0x1_0000 + 47)) by (nonlinear_arith)
            requires
                0 < kb.width <= 0x7fff,
                0 <= offset <= 7 * 0x1_0000 + 20,
                3 <= segments <= 7,
        ;
    } else {
        lemma_white_index(kb, key);
        let index = kb.whites_before(key);
        assert(0 <= kb.width * index <= 0x7fff * 0x1_0000 && 0 <= kb.width * (index + 1) <= 0x7fff
            * 0x1_0000) by (nonlinear_arith)
            requires
                0 < kb.width <= 0x7fff,
                0 <= index < 0x1_0000,
        ;
    }
}

/// A rectangle within the bounds of [`lemma_rect_within`] stays within
/// 2^36 and 2^22 when drawn out along its height by a scale of two
/// 16-bit numbers.
pub proof fn lemma_stretched_within(r: FracRect, scale_num: int, scale_den: int)
    requires
        r.within(0x10_0000_0000, 0x40_0000),
        r.tl.y == Frac::whole(0),
        r.bl.y.within(0x6_7ff3, 20),
        r.bl.y.num >= 0,
        0 <= scale_num <= 0xffff,
        0 < scale_den <= 0xffff,
    ensures
        r.stretched(scale_num, scale_den).wf(),
        r.stretched(scale_num, scale_den).within(0x10_0000_0000, 0x40_0000),
{
    let bottom = r.bl.y;
    let tall = r.stretched(scale_num, scale_den);
    assert(tall.tl.y.den == bottom.den * (2 * scale_den) && tall.bl.y.den == bottom.den * (2
        * scale_den) && tall.tl.y.num == -(bottom.num * (scale_num - scale_den)) && tall.bl.y.num
        == bottom.num * (2 * scale_den) + bottom.num * (scale_num - scale_den))
        by (nonlinear_arith)
        requires
            tall == r.stretched(scale_num, scale_den),
            r.tl.y == Frac::whole(0),
            bottom == r.bl.y,
    ;
    assert(0 < bottom.den * (2 * scale_den) <= 20 * (2 * 0xffff) && -(0x6_7ff3 * 0xffff)
        <= bottom.num * (scale_num - scale_den) <= 0x6_7ff3 * 0xffff && 0 <= bottom.num * (2
        * scale_den) + bottom.num * (scale_num - scale_den) <= 0x6_7ff3 * (2 * 0xffff))
        by (nonlinear_arith)
        requires
            0 <= bottom.num <= 0x6_7ff3,
            0 < bottom.den <= 20,
            0 <= scale_num <= 0xffff,
            0 < scale_den <= 0xffff,
    ;
    assert(tall.tr.y == tall.tl.y && tall.br.y == tall.bl.y);
}

/// The widths of the white keys below `n` add up to as many white-key
/// widths as there are white keys below `n`.
proof fn lemma_white_widths(kb: Keyboard, n: int)
    requires
        kb.wf(),
        kb.whites() > 0,
        0 <= n <= kb.n_keys,
    ensures
        kb.white_widths(n).wf(),
        kb.white_widths(n).same(Frac { num: kb.width * kb.whites_before(n), den: kb.whites() }),
    decreases n,
{
    let whites = kb.whites();
    if n > 0 {
        lemma_white_widths(kb, n - 1);
        if !kb.is_black(n - 1) {
            let index = kb.whites_before(n - 1);
            let rest = kb.white_widths(n - 1);
            let rest_value = Frac { num: kb.width * index, den: whites };
            let key_width = kb.rect(n - 1).width();
            let key_value = Frac { num: kb.width * (index + 1) - kb.width * index, den: whites };
            lemma_minus_common(kb.width * (index + 1), kb.width * index, whites);
            lemma_plus_same(rest, key_width, rest_value, key_value);
            lemma_plus_common(rest_value.num, key_value.num, whites);
            assert(rest_value.plus(key_value).wf()) by (nonlinear_arith)
                requires
                    rest_value.plus(key_value).den == whites * whites,
                    whites > 0,
            ;
            lemma_same_transitive(
                rest.plus(key_width),
                rest_value.plus(key_value),
                Frac { num: rest_value.num + key_value.num, den: whites },
            );
        }
    } else {
        let none = kb.white_widths(n);
        assert(none.num * whites == 0 && kb.width * kb.whites_before(n) == 0) by (nonlinear_arith)
            requires
                none.num == 0,
                kb.whites_before(n) == 0,
        ;
    }
}

/// Over the whole keyboard the widths of the white keys add up to the
/// width of the keyboard.
pub proof fn theorem_white_keys_fill_width(kb: Keyboard)
    requires
        kb.wf(),
        kb.whites() > 0,
    ensures
        kb.white_widths(kb.n_keys).wf(),
        kb.white_widths(kb.n_keys).same(Frac::whole(kb.width)),
{
    lemma_white_widths(kb, kb.n_keys);
    let total = Frac { num: kb.width * kb.whites(), den: kb.whites() };
    lemma_same_transitive(kb.white_widths(kb.n_keys), total, Frac::whole(kb.width));
}

/// The shape of a key's rectangle: its sides are upright and level, it
/// starts at the top of the image and has a width and a height. A white
/// key is one white-key width wide, the keyboard's width over the number
/// of white keys, and as high as the keyboard; a black key is half as
/// wide and 13/20 as high.
pub proof fn theorem_key_shape(kb: Keyboard, key: int)
    requires
        kb.wf(),
        kb.has_key(key),
        kb.whites() > 0,
    ensures
        ({
            let r = kb.rect(key);
            &&& r.wf()
            &&& r.tl.x == r.bl.x && r.tr.x == r.br.x
            &&& r.tl.y == r.tr.y && r.bl.y == r.br.y
            &&& r.tl.y == Frac::whole(0)
            &&& r.tl.x.below(r.tr.x)
            &&& r.tl.y.below(r.bl.y)
            &&& r.width().wf()
            &&& r.height().wf()
            &&& kb.is_black(key) ==> r.width().same(Frac { num: kb.width, den: 2 * kb.whites() })
                && r.height().same(Frac { num: 13 * kb.height, den: 20 })
            &&& !kb.is_black(key) ==> r.width().same(Frac { num: kb.width, den: kb.whites() })
                && r.height().same(Frac::whole(kb.height))
        }),
{
    let r = kb.rect(key);
    let whites = kb.whites();
    let width = kb.width;
    if kb.is_black(key) {
        lemma_cluster(kb, key);
        let segments = 2 * kb.cluster_size(key) + 1;
        let offset = kb.black_offset(key);
        let unit = whites * segments;
        let left = width * offset;
        let right = width * (2 * offset + segments);
        assert(unit > 0 && (2 * unit) * unit > 0) by (nonlinear_arith)
            requires
                unit == whites * segments,
                whites > 0,
                segments > 0,
        ;
        assert(right * unit - left * (2 * unit) == (width * segments) * unit) by (nonlinear_arith)
            requires
                left == width * offset,
                right == width * (2 * offset + segments),
        ;
        assert(((width * segments) * unit) * (2 * whites) == width * ((2 * unit) * unit))
            by (nonlinear_arith)
            requires
                unit == whites * segments,
        ;
        assert(left * (2 * unit) < right * unit) by (nonlinear_arith)
            requires
                right * unit - left * (2 * unit) == (width * segments) * unit,
                width > 0,
                segments > 0,
                unit > 0,
        ;
    } else {
        let index = kb.whites_before(key);
        assert(whites * whites > 0) by (nonlinear_arith)
            requires
                whites > 0,
        ;
        assert((width * (index + 1)) * whites - (width * index) * whites == width * whites)
            by (nonlinear_arith);
        assert((width * whites) * whites == width * (whites * whites)) by (nonlinear_arith);
        assert((width * index) * whites < (width * (index + 1)) * whites) by (nonlinear_arith)
            requires
                width > 0,
                whites > 0,
        ;
    }
}

/// A black key lies strictly inside the span of the white keys that bound
/// its cluster, starts at the top, and is 13/20 of the keyboard high. The
/// one cluster left out is that of two black keys with no white key of the
/// keyboard on either side, whose right key reaches past the span.
pub proof fn theorem_black_key_within_span(kb: Keyboard, key: int)
    requires
        kb.wf(),
        kb.has_key(key),
        kb.is_black(key),
        kb.whites() > 0,
        kb.bounded_left(key) || kb.bounded_right(key) || kb.cluster_size(key) == 3
            || kb.cluster_rank(key) + 1 < kb.cluster_size(key),
    ensures
        kb.rect(key).wf(),
        kb.span_left(key).below(kb.rect(key).tl.x),
        kb.rect(key).tr.x.below(kb.span_right(key)),
        kb.rect(key).tl.y == Frac::whole(0),
        kb.rect(key).height().same(Frac { num: 13 * kb.height, den: 20 }),
{
    lemma_cluster(kb, key);
    let whites = kb.whites();
    let anchor = kb.cluster_anchor(key);
    let span = kb.cluster_whites(key);
    let size = kb.cluster_size(key);
    let rank = kb.cluster_rank(key);
    let segments = 2 * size + 1;
    let offset = kb.black_offset(key);
    let area = kb.width * whites;
    assert(area > 0 && whites * segments > 0) by (nonlinear_arith)
        requires
            area == kb.width * whites,
            kb.width > 0,
            whites > 0,
            segments > 0,
    ;
    assert(0 < span * (2 * rank + 1) && 2 * (span * (2 * rank + 1)) + segments < 2 * (span
        * segments)) by (nonlinear_arith)
        requires
            1 <= size <= 3,
            0 <= rank < size,
            segments == 2 * size + 1,
            size - 1 <= span <= size + 1,
            span >= size || size == 3 || rank + 1 < size,
    ;
    // The left edge, against the left end of the span.
    lemma_mul_pairs(kb.width, anchor, whites, segments);
    lemma_mul_pairs(kb.width, offset, whites, 1);
    lemma_mul_strict(area, anchor * segments, offset);
    // The right edge, against the right end of the span.
    lemma_mul_pairs(kb.width, 2 * offset + segments, whites, 1);
    lemma_mul_pairs(kb.width, anchor + span, whites, 2 * segments);
    lemma_mul_sum(anchor, span, 2 * segments);
    lemma_mul_flip(whites, 2 * segments);
    assert(anchor * (2 * segments) == 2 * (anchor * segments) && span * (2 * segments) == 2 * (span
        * segments) && 2 * (whites * segments) == (2 * segments) * whites) by (nonlinear_arith);
    lemma_mul_strict(area, 2 * offset + segments, (anchor + span) * (2 * segments));
}

} // verus!
