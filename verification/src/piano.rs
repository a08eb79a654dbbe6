//! The keyboard flat and the keyboard warped onto a border: key classes
//! and per-key rectangles, computed on first use and kept.

use crate::convert::IbFrom;
use crate::geometry::{lemma_same_transitive, FracPoint, FracRect, IbRectangle, Point, Ratio};
use crate::homography::{
    border_on_grid, degenerate, theorem_corners_onto_border, theorem_project_respects_same,
    Homography,
};
use crate::layout::{
    lemma_black_neighbours, lemma_cluster, lemma_counts, lemma_rect_within,
    lemma_stretched_within, lemma_white_index, Keyboard,
};
use crate::pattern::key_type;
use crate::projector::{DegenerateGeometryError, Projector, COORD_LIMIT, DEN_LIMIT, NUM_LIMIT};
use vstd::prelude::*;

verus! {

/// The most keys of a keyboard that can be warped onto a border.
pub const KEY_LIMIT: usize = 0x1_0000;

/// What a keyboard offers, flat or warped: the class and the rectangle of
/// each key.
pub trait Piano {
    /// The configuration of the keyboard.
    spec fn keyboard(&self) -> Keyboard;

    /// The value is one that its constructor made and its methods kept.
    spec fn wf(&self) -> bool;

    /// The rectangles kept so far, one slot per key.
    spec fn cached(&self) -> Seq<Option<IbRectangle>>;

    /// What `get_ib_rect` gives for `key`, whatever is kept.
    spec fn rect_of(&self, key: int) -> Result<FracRect, DegenerateGeometryError>;

    /// The rectangle of key `key`. It is computed on the first call for
    /// a key and kept; later calls hand back the kept rectangle.
    fn get_ib_rect(&mut self, key: usize) -> (r: Result<IbRectangle, DegenerateGeometryError>)
        requires
            old(self).wf(),
            old(self).keyboard().has_key(key as int),
        ensures
            final(self).wf(),
            final(self).keyboard() == old(self).keyboard(),
            forall|k: int| #[trigger] final(self).rect_of(k) == old(self).rect_of(k),
            old(self).cached()[key as int] matches Some(kept) ==> r == Ok::<
                IbRectangle,
                DegenerateGeometryError,
            >(kept),
            match r {
                Ok(rect) => {
                    &&& old(self).rect_of(key as int) == Ok::<FracRect, DegenerateGeometryError>(
                        rect@,
                    )
                    &&& final(self).cached() == old(self).cached().update(key as int, Some(rect))
                },
                Err(error) => {
                    &&& old(self).rect_of(key as int) == Err::<FracRect, DegenerateGeometryError>(
                        error,
                    )
                    &&& final(self).cached() == old(self).cached()
                },
            },
    ;

    /// The corners of key `key` in winding order.
    fn get_vector(&mut self, key: usize) -> (corners: Result<Vec<Point>, DegenerateGeometryError>)
        requires
            old(self).wf(),
            old(self).keyboard().has_key(key as int),
        ensures
            final(self).wf(),
            final(self).keyboard() == old(self).keyboard(),
            forall|k: int| #[trigger] final(self).rect_of(k) == old(self).rect_of(k),
            match corners {
                Ok(points) => {
                    &&& points@.len() == 4
                    &&& old(self).rect_of(key as int) == Ok::<FracRect, DegenerateGeometryError>(
                        (FracRect { tl: points@[0]@, tr: points@[1]@, br: points@[2]@, bl: points@[3]@ }),
                    )
                },
                Err(error) => old(self).rect_of(key as int) == Err::<
                    FracRect,
                    DegenerateGeometryError,
                >(error),
            },
    ;

    /// Whether key `key` is black.
    fn is_black(&self, key: usize) -> (black: bool)
        requires
            self.wf(),
            self.keyboard().has_key(key as int),
        ensures
            black == self.keyboard().is_black(key as int),
    ;

    /// The number of keys.
    fn key_count(&self) -> (n: usize)
        requires
            self.wf(),
        ensures
            n == self.keyboard().n_keys,
    ;

    /// The number of white keys.
    fn white_key_count(&self) -> (n: usize)
        requires
            self.wf(),
        ensures
            n == self.keyboard().whites(),
    ;
}

/// A keyboard laid out flat in a `width` by `height` image.
pub struct Piano2D {
    width: u32,
    height: u32,
    start_key: usize,
    n_keys: usize,
    key_types: Vec<bool>,
    key_type_indices: Vec<usize>,
    n_white_keys: usize,
    key_ib_rects: Vec<Option<IbRectangle>>,
}

/// The product of a 32-bit and a 64-bit magnitude fits in 96 bits.
proof fn lemma_product_fits(a: int, b: int)
    by (nonlinear_arith)
    requires
        0 <= a <= 0xffff_ffff,
        0 <= b <= 0x1_0000_0000_0000_0000_0000,
    ensures
        0 <= a * b <= 0xffff_ffff * 0x1_0000_0000_0000_0000_0000,
{
}

impl Piano2D {
    /// A keyboard of `n_keys` keys from absolute key `start_key` on, with
    /// no rectangle computed yet.
    pub fn new(width: u32, height: u32, start_key: usize, n_keys: usize) -> (piano: Piano2D)
        requires
            width > 0,
            height > 0,
            n_keys > 0,
        ensures
            piano.wf(),
            piano.keyboard() == (Keyboard {
                width: width as int,
                height: height as int,
                start_key: start_key as int,
                n_keys: n_keys as int,
            }),
            piano.cached() == Seq::new(n_keys as nat, |i: int| None::<IbRectangle>),
    {
        let ghost kb = Keyboard {
            width: width as int,
            height: height as int,
            start_key: start_key as int,
            n_keys: n_keys as int,
        };
        let mut key_types: Vec<bool> = Vec::new();
        let mut key_type_indices: Vec<usize> = Vec::new();
        let mut key_ib_rects: Vec<Option<IbRectangle>> = Vec::new();
        let mut n_white_keys: usize = 0;
        let mut n_black_keys: usize = 0;
        let mut i: usize = 0;
        while i < n_keys
            invariant
                i <= n_keys,
                key_types@.len() == i,
                key_type_indices@.len() == i,
                key_ib_rects@.len() == i,
                n_white_keys == kb.whites_before(i as int),
                n_black_keys == kb.blacks_before(i as int),
                kb.start_key == start_key,
                forall|j: int| 0 <= j < i ==> #[trigger] key_types@[j] == kb.is_black(j),
                forall|j: int| 0 <= j < i ==> #[trigger] key_type_indices@[j] == kb.type_index(j),
                forall|j: int| 0 <= j < i ==> #[trigger] key_ib_rects@[j] == None::<IbRectangle>,
            decreases n_keys - i,
        {
            proof {
                lemma_counts(kb, i as int);
            }
            let black = key_type(start_key, i);
            key_types.push(black);
            if black {
                key_type_indices.push(n_black_keys);
                n_black_keys = n_black_keys + 1;
            } else {
                key_type_indices.push(n_white_keys);
                n_white_keys = n_white_keys + 1;
            }
            key_ib_rects.push(None);
            i = i + 1;
        }
        let piano = Piano2D {
            width,
            height,
            start_key,
            n_keys,
            key_types,
            key_type_indices,
            n_white_keys,
            key_ib_rects,
        };
        assert(piano.cached() =~= Seq::new(n_keys as nat, |i: int| None::<IbRectangle>));
        piano
    }

    /// The width of the keyboard image.
    pub fn width(&self) -> (w: u32)
        ensures
            w == self.keyboard().width,
    {
        self.width
    }

    /// The height of the keyboard image.
    pub fn height(&self) -> (h: u32)
        ensures
            h == self.keyboard().height,
    {
        self.height
    }

    /// The absolute number of the lowest key.
    pub fn start_key(&self) -> (k: usize)
        ensures
            k == self.keyboard().start_key,
    {
        self.start_key
    }

    /// The number of keys.
    pub fn n_keys(&self) -> (n: usize)
        ensures
            n == self.keyboard().n_keys,
    {
        self.n_keys
    }

    /// The number of white keys.
    pub fn n_white_keys(&self) -> (n: usize)
        requires
            self.wf(),
        ensures
            n == self.keyboard().whites(),
    {
        self.n_white_keys
    }

    /// The leftmost black key of the cluster of black key `key`.
    fn cluster_start(&self, key: usize) -> (first: usize)
        requires
            self.wf(),
            self.keyboard().has_key(key as int),
        ensures
            first == self.keyboard().cluster_first(key as int),
            first <= key,
    {
        let mut first: usize = key;
        while first >= 2 && self.key_types[first - 2]
            invariant
                self.wf(),
                first <= key < self.n_keys,
                self.keyboard().cluster_first(first as int) == self.keyboard().cluster_first(
                    key as int,
                ),
            decreases first,
        {
            first = first - 2;
        }
        first
    }

    /// The rightmost black key of the cluster of black key `key`.
    fn cluster_end(&self, key: usize) -> (last: usize)
        requires
            self.wf(),
            self.keyboard().has_key(key as int),
        ensures
            last == self.keyboard().cluster_last(key as int),
            key <= last < self.keyboard().n_keys,
    {
        let mut last: usize = key;
        while self.n_keys - last > 2 && self.key_types[last + 2]
            invariant
                self.wf(),
                key <= last < self.n_keys,
                self.keyboard().cluster_last(last as int) == self.keyboard().cluster_last(
                    key as int,
                ),
            decreases self.n_keys - last,
        {
            last = last + 2;
        }
        last
    }

    /// The rectangle of white key `key`.
    fn white_rect(&self, key: usize) -> (r: IbRectangle)
        requires
            self.wf(),
            self.keyboard().has_key(key as int),
            !self.keyboard().is_black(key as int),
        ensures
            r@ == self.keyboard().white_rect(key as int),
    {
        let index: i128 = self.key_type_indices[key] as i128;
        let whites: i128 = self.n_white_keys as i128;
        let width: i128 = self.width as i128;
        proof {
            lemma_white_index(self.keyboard(), key as int);
            lemma_product_fits(width as int, index as int);
            lemma_product_fits(width as int, index + 1);
        }
        let zero = Ratio::from_int(0);
        let bottom = Ratio::from_int(self.height as i64);
        let left = Ratio::new(width * index, whites);
        let right = Ratio::new(width * (index + 1), whites);
        IbRectangle {
            tl: Point { x: left, y: zero },
            tr: Point { x: right, y: zero },
            br: Point { x: right, y: bottom },
            bl: Point { x: left, y: bottom },
        }
    }

    /// The rectangle of black key `key`.
    fn black_rect(&self, key: usize) -> (r: IbRectangle)
        requires
            self.wf(),
            self.keyboard().has_key(key as int),
            self.keyboard().is_black(key as int),
            self.keyboard().whites() > 0,
        ensures
            r@ == self.keyboard().black_rect(key as int),
    {
        let ghost kb = self.keyboard();
        let first: usize = self.cluster_start(key);
        let last: usize = self.cluster_end(key);
        proof {
            lemma_cluster(kb, key as int);
            lemma_black_neighbours(kb, first as int);
            lemma_counts(kb, first as int);
            lemma_counts(kb, kb.n_keys);
        }
        let size: i128 = ((last - first) / 2 + 1) as i128;
        let rank: i128 = ((key - first) / 2) as i128;
        let mut span: i128 = size - 1;
        let mut anchor: i128 = 0;
        if first >= 1 {
            span = span + 1;
            anchor = self.key_type_indices[first - 1] as i128;
        }
        if last + 1 < self.n_keys {
            span = span + 1;
        }
        assert(size == kb.cluster_size(key as int));
        assert(rank == kb.cluster_rank(key as int));
        assert(span == kb.cluster_whites(key as int));
        assert(anchor == kb.cluster_anchor(key as int));
        let segments: i128 = 2 * size + 1;
        let whites: i128 = self.n_white_keys as i128;
        let width: i128 = self.width as i128;
        assert(0 <= anchor * segments <= 7 * anchor) by (nonlinear_arith)
            requires
                0 <= anchor,
                3 <= segments <= 7,
        ;
        assert(0 <= span * (2 * rank + 1) <= 20) by (nonlinear_arith)
            requires
                0 <= span <= 4,
                0 <= rank <= 2,
        ;
        let offset: i128 = anchor * segments + span * (2 * rank + 1);
        assert(offset == kb.black_offset(key as int));
        assert(0 < whites * segments <= 7 * whites) by (nonlinear_arith)
            requires
                0 < whites,
                3 <= segments <= 7,
        ;
        proof {
            lemma_product_fits(width as int, offset as int);
            lemma_product_fits(width as int, 2 * offset + segments);
        }
        let zero = Ratio::from_int(0);
        let bottom = Ratio::new(13 * (self.height as i128), 20);
        let unit: i128 = whites * segments;
        let left = Ratio::new(width * offset, unit);
        let right = Ratio::new(width * (2 * offset + segments), 2 * unit);
        IbRectangle {
            tl: Point { x: left, y: zero },
            tr: Point { x: right, y: zero },
            br: Point { x: right, y: bottom },
            bl: Point { x: left, y: bottom },
        }
    }

    /// The rectangle of key `key` in the flat image. It is computed on
    /// the first call for a key and kept; later calls hand back the kept
    /// rectangle.
    fn flat_rect(&mut self, key: usize) -> (r: IbRectangle)
        requires
            old(self).wf(),
            old(self).keyboard().has_key(key as int),
            old(self).keyboard().whites() > 0,
        ensures
            final(self).wf(),
            final(self).keyboard() == old(self).keyboard(),
            r@ == old(self).keyboard().rect(key as int),
            old(self).cached()[key as int] matches Some(kept) ==> r == kept,
            final(self).cached() == old(self).cached().update(key as int, Some(r)),
    {
        match self.key_ib_rects[key] {
            Some(kept) => {
                assert(self.cached() =~= old(self).cached().update(key as int, Some(kept)));
                kept
            },
            None => {
                let r = if self.key_types[key] {
                    self.black_rect(key)
                } else {
                    self.white_rect(key)
                };
                self.key_ib_rects.set(key, Some(r));
                r
            },
        }
    }
}

impl Piano for Piano2D {
    closed spec fn keyboard(&self) -> Keyboard {
        Keyboard {
            width: self.width as int,
            height: self.height as int,
            start_key: self.start_key as int,
            n_keys: self.n_keys as int,
        }
    }

    /// The tables agree with the configuration, and every kept rectangle
    /// is the rectangle of its key.
    closed spec fn wf(&self) -> bool {
        &&& self.keyboard().wf()
        &&& self.key_types@.len() == self.n_keys
        &&& self.key_type_indices@.len() == self.n_keys
        &&& self.key_ib_rects@.len() == self.n_keys
        &&& self.n_white_keys == self.keyboard().whites()
        &&& forall|i: int|
            0 <= i < self.n_keys ==> #[trigger] self.key_types@[i] == self.keyboard().is_black(i)
        &&& forall|i: int|
            0 <= i < self.n_keys ==> #[trigger] self.key_type_indices@[i]
                == self.keyboard().type_index(i)
        &&& forall|i: int|
            0 <= i < self.n_keys ==> ((#[trigger] self.key_ib_rects@[i]) matches Some(r) ==> r@
                == self.keyboard().rect(i) && self.keyboard().whites() > 0)
    }

    closed spec fn cached(&self) -> Seq<Option<IbRectangle>> {
        self.key_ib_rects@
    }

    /// The flat rectangle of the key, on a keyboard that has a white key.
    open spec fn rect_of(&self, key: int) -> Result<FracRect, DegenerateGeometryError> {
        flat(self.keyboard(), key)
    }

    fn get_ib_rect(&mut self, key: usize) -> (r: Result<IbRectangle, DegenerateGeometryError>) {
        if self.n_white_keys == 0 {
            return Err(DegenerateGeometryError::NoWhiteKey);
        }
        Ok(self.flat_rect(key))
    }

    fn get_vector(&mut self, key: usize) -> (corners: Result<
        Vec<Point>,
        DegenerateGeometryError,
    >) {
        match self.get_ib_rect(key) {
            Ok(rect) => Ok(Vec::<Point>::ib_from(rect)),
            Err(error) => Err(error),
        }
    }

    fn is_black(&self, key: usize) -> (black: bool) {
        self.key_types[key]
    }

    fn key_count(&self) -> (n: usize) {
        self.n_keys
    }

    fn white_key_count(&self) -> (n: usize) {
        self.n_white_keys
    }
}

/// A keyboard warped onto a border: each key's flat rectangle carried
/// over by the transform that takes the flat image onto the border.
pub struct Piano3D {
    border: IbRectangle,
    piano2d: Piano2D,
    projector: Projector,
    key_ib_rects: Vec<Option<IbRectangle>>,
}

/// The rectangle of key `key` of the flat keyboard, or the error that
/// the keyboard has no white key.
pub open spec fn flat(kb: Keyboard, key: int) -> Result<FracRect, DegenerateGeometryError> {
    if kb.whites() > 0 {
        Ok(kb.rect(key))
    } else {
        Err(DegenerateGeometryError::NoWhiteKey)
    }
}

/// The rectangle that a transform makes of a flat rectangle, or the
/// error that one of its corners goes to infinity; the error of the flat
/// rectangle where there is none.
pub open spec fn warped(h: Homography, flat: Result<FracRect, DegenerateGeometryError>) -> Result<
    FracRect,
    DegenerateGeometryError,
> {
    match flat {
        Ok(rect) => match h.project_rect(rect) {
            Some(r) => Ok(r),
            None => Err(DegenerateGeometryError::PointAtInfinity),
        },
        Err(error) => Err(error),
    }
}

/// A flat rectangle drawn out along its height, or its error.
pub open spec fn drawn_out(
    flat: Result<FracRect, DegenerateGeometryError>,
    scale_num: int,
    scale_den: int,
) -> Result<FracRect, DegenerateGeometryError> {
    match flat {
        Ok(rect) => Ok(rect.stretched(scale_num, scale_den)),
        Err(error) => Err(error),
    }
}

impl Piano3D {
    /// The border that the keyboard is warped onto.
    pub closed spec fn border(&self) -> IbRectangle {
        self.border
    }

    /// The transform from the flat image onto the border.
    pub closed spec fn homography(&self) -> Homography {
        self.projector.homography()
    }

    /// The keyboard warped onto `border`, with no rectangle computed yet.
    /// A border with three corners on one line is refused.
    pub fn new(border: IbRectangle, piano2d: Piano2D) -> (made: Result<
        Piano3D,
        DegenerateGeometryError,
    >)
        requires
            piano2d.wf(),
            piano2d.keyboard().width <= COORD_LIMIT,
            piano2d.keyboard().height <= COORD_LIMIT,
            piano2d.keyboard().n_keys <= KEY_LIMIT,
            border_on_grid(border@, COORD_LIMIT as int),
        ensures
            match made {
                Ok(piano) => {
                    &&& !degenerate(border@)
                    &&& piano.wf()
                    &&& piano.keyboard() == piano2d.keyboard()
                    &&& piano.border() == border
                    &&& piano.homography() == Homography::onto(
                        piano2d.keyboard().width,
                        piano2d.keyboard().height,
                        border@,
                    )
                    &&& piano.cached() == Seq::new(
                        piano2d.keyboard().n_keys as nat,
                        |i: int| None::<IbRectangle>,
                    )
                },
                Err(error) => {
                    &&& degenerate(border@)
                    &&& error == DegenerateGeometryError::CollinearBorder
                },
            },
    {
        let projector = match Projector::new(piano2d.width(), piano2d.height(), &border) {
            Ok(projector) => projector,
            Err(error) => {
                return Err(error);
            },
        };
        let n_keys: usize = piano2d.n_keys();
        let mut key_ib_rects: Vec<Option<IbRectangle>> = Vec::new();
        let mut i: usize = 0;
        while i < n_keys
            invariant
                i <= n_keys,
                key_ib_rects@.len() == i,
                forall|j: int| 0 <= j < i ==> #[trigger] key_ib_rects@[j] == None::<IbRectangle>,
            decreases n_keys - i,
        {
            key_ib_rects.push(None);
            i = i + 1;
        }
        let piano = Piano3D { border, piano2d, projector, key_ib_rects };
        assert(piano.cached() =~= Seq::new(n_keys as nat, |i: int| None::<IbRectangle>));
        Ok(piano)
    }

    /// The flat keyboard underneath.
    pub fn piano2d(&self) -> (flat: &Piano2D)
        requires
            self.wf(),
        ensures
            flat.wf(),
            flat.keyboard() == self.keyboard(),
    {
        &self.piano2d
    }

    /// The border that the keyboard is warped onto.
    pub fn get_border(&self) -> (border: IbRectangle)
        ensures
            border == self.border(),
    {
        self.border
    }

    /// The images of `src` under the transform onto the border, in their
    /// order. There is no result if one of them goes to infinity.
    pub fn perspective_transform(&self, src: &Vec<Point>) -> (dst: Result<
        Vec<Point>,
        DegenerateGeometryError,
    >)
        requires
            self.wf(),
            forall|i: int|
                0 <= i < src@.len() ==> (#[trigger] src@[i])@.within(
                    NUM_LIMIT as int,
                    DEN_LIMIT as int,
                ),
        ensures
            match dst {
                Ok(out) => {
                    &&& out@.len() == src@.len()
                    &&& forall|i: int|
                        0 <= i < src@.len() ==> self.homography().project((#[trigger] src@[i])@)
                            == Some(out@[i]@)
                },
                Err(error) => {
                    &&& error == DegenerateGeometryError::PointAtInfinity
                    &&& exists|i: int|
                        0 <= i < src@.len() && self.homography().project((#[trigger] src@[i])@)
                            is None
                },
            },
    {
        self.projector.project(src)
    }

    /// The image of a rectangle of the flat image, corner by corner.
    fn warp(&self, plain: IbRectangle) -> (r: Result<IbRectangle, DegenerateGeometryError>)
        requires
            self.wf(),
            plain@.within(NUM_LIMIT as int, DEN_LIMIT as int),
        ensures
            match r {
                Ok(rect) => warped(self.homography(), Ok(plain@)) == Ok::<
                    FracRect,
                    DegenerateGeometryError,
                >(rect@),
                Err(error) => warped(self.homography(), Ok(plain@)) == Err::<
                    FracRect,
                    DegenerateGeometryError,
                >(error),
            },
    {
        let src = Vec::<Point>::ib_from(plain);
        match self.perspective_transform(&src) {
            Ok(dst) => Ok(IbRectangle::ib_from(dst)),
            Err(error) => Err(error),
        }
    }

    /// The rectangle of key `key`, drawn out along its height to
    /// `scale_num / scale_den` of it while still flat, and then warped
    /// onto the border. It is computed afresh on every call, and never
    /// kept.
    pub fn scaled_rectangle_for(&mut self, key: usize, scale_num: u16, scale_den: u16) -> (r:
        Result<IbRectangle, DegenerateGeometryError>)
        requires
            old(self).wf(),
            old(self).keyboard().has_key(key as int),
            scale_den > 0,
        ensures
            final(self).wf(),
            final(self).keyboard() == old(self).keyboard(),
            final(self).homography() == old(self).homography(),
            final(self).border() == old(self).border(),
            final(self).cached() == old(self).cached(),
            match r {
                Ok(rect) => warped(
                    old(self).homography(),
                    drawn_out(
                        flat(old(self).keyboard(), key as int),
                        scale_num as int,
                        scale_den as int,
                    ),
                ) == Ok::<FracRect, DegenerateGeometryError>(rect@),
                Err(error) => warped(
                    old(self).homography(),
                    drawn_out(
                        flat(old(self).keyboard(), key as int),
                        scale_num as int,
                        scale_den as int,
                    ),
                ) == Err::<FracRect, DegenerateGeometryError>(error),
            },
    {
        if self.piano2d.n_white_keys() == 0 {
            return Err(DegenerateGeometryError::NoWhiteKey);
        }
        proof {
            lemma_rect_within(self.keyboard(), key as int);
            lemma_stretched_within(
                self.keyboard().rect(key as int),
                scale_num as int,
                scale_den as int,
            );
        }
        let plain = self.piano2d.flat_rect(key);
        let tall = plain.scale_height(scale_num, scale_den);
        self.warp(tall)
    }
}

impl Piano for Piano3D {
    closed spec fn keyboard(&self) -> Keyboard {
        self.piano2d.keyboard()
    }

    /// The flat keyboard is sound and small enough to warp, the
    /// transform is that onto the border, and every kept rectangle is the
    /// warped rectangle of its key.
    closed spec fn wf(&self) -> bool {
        &&& self.piano2d.wf()
        &&& self.projector.wf()
        &&& self.keyboard().width <= COORD_LIMIT
        &&& self.keyboard().height <= COORD_LIMIT
        &&& self.keyboard().n_keys <= KEY_LIMIT
        &&& border_on_grid(self.border@, COORD_LIMIT as int)
        &&& !degenerate(self.border@)
        &&& self.projector.homography() == Homography::onto(
            self.keyboard().width,
            self.keyboard().height,
            self.border@,
        )
        &&& self.key_ib_rects@.len() == self.keyboard().n_keys
        &&& forall|i: int|
            0 <= i < self.key_ib_rects@.len() ==> ((#[trigger] self.key_ib_rects@[i]) matches Some(
                r,
            ) ==> self.projector.homography().project_rect(self.keyboard().rect(i)) == Some(r@)
                && self.keyboard().whites() > 0)
    }

    closed spec fn cached(&self) -> Seq<Option<IbRectangle>> {
        self.key_ib_rects@
    }

    /// The flat rectangle of the key, warped onto the border.
    open spec fn rect_of(&self, key: int) -> Result<FracRect, DegenerateGeometryError> {
        warped(self.homography(), flat(self.keyboard(), key))
    }

    fn get_ib_rect(&mut self, key: usize) -> (r: Result<IbRectangle, DegenerateGeometryError>)
        ensures
            final(self).homography() == old(self).homography(),
            final(self).border() == old(self).border(),
    {
        match self.key_ib_rects[key] {
            Some(kept) => {
                assert(self.cached() =~= old(self).cached().update(key as int, Some(kept)));
                Ok(kept)
            },
            None => {
                if self.piano2d.n_white_keys() == 0 {
                    return Err(DegenerateGeometryError::NoWhiteKey);
                }
                proof {
                    lemma_rect_within(self.keyboard(), key as int);
                }
                let plain = self.piano2d.flat_rect(key);
                match self.warp(plain) {
                    Ok(rect) => {
                        self.key_ib_rects.set(key, Some(rect));
                        Ok(rect)
                    },
                    Err(error) => Err(error),
                }
            },
        }
    }

    fn get_vector(&mut self, key: usize) -> (corners: Result<
        Vec<Point>,
        DegenerateGeometryError,
    >)
        ensures
            final(self).homography() == old(self).homography(),
            final(self).border() == old(self).border(),
    {
        match self.get_ib_rect(key) {
            Ok(rect) => Ok(Vec::<Point>::ib_from(rect)),
            Err(error) => Err(error),
        }
    }

    fn is_black(&self, key: usize) -> (black: bool) {
        self.piano2d.is_black(key)
    }

    fn key_count(&self) -> (n: usize) {
        self.piano2d.key_count()
    }

    fn white_key_count(&self) -> (n: usize) {
        self.piano2d.white_key_count()
    }
}


/// A point that is written otherwise than a corner of the image still
/// goes where the corner goes.
proof fn lemma_corner_image(h: Homography, p: FracPoint, corner: FracPoint, target: FracPoint)
    requires
        p.wf(),
        corner.wf(),
        corner.same(p),
        h.project(corner) matches Some(q) && q.wf() && q.same(target),
    ensures
        h.project(p) matches Some(q) && q.same(target),
{
    theorem_project_respects_same(h, corner, p);
    let q = h.project(corner)->0;
    let r = h.project(p)->0;
    lemma_same_transitive(r.x, q.x, target.x);
    lemma_same_transitive(r.y, q.y, target.y);
}

/// The warped keyboard fills the border: where the lowest key is white,
/// its left corners go to the left corners of the border, and where the
/// highest key is white, its right corners go to the right corners of
/// the border.
pub proof fn theorem_keyboard_fills_border(kb: Keyboard, border: FracRect)
    requires
        kb.wf(),
        kb.whites() > 0,
        border.tl == FracPoint::at(border.tl.x.num, border.tl.y.num),
        border.tr == FracPoint::at(border.tr.x.num, border.tr.y.num),
        border.br == FracPoint::at(border.br.x.num, border.br.y.num),
        border.bl == FracPoint::at(border.bl.x.num, border.bl.y.num),
        !degenerate(border),
    ensures
        ({
            let h = Homography::onto(kb.width, kb.height, border);
            let low = kb.rect(0);
            let high = kb.rect(kb.n_keys - 1);
            &&& !kb.is_black(0) ==> {
                &&& h.project(low.tl) matches Some(p) && p.same(border.tl)
                &&& h.project(low.bl) matches Some(p) && p.same(border.bl)
            }
            &&& !kb.is_black(kb.n_keys - 1) ==> {
                &&& h.project(high.tr) matches Some(p) && p.same(border.tr)
                &&& h.project(high.br) matches Some(p) && p.same(border.br)
            }
        }),
{
    let h = Homography::onto(kb.width, kb.height, border);
    theorem_corners_onto_border(kb.width, kb.height, border);
    let whites = kb.whites();
    if !kb.is_black(0) {
        let low = kb.rect(0);
        assert(kb.whites_before(0) == 0);
        assert(kb.width * 0 == 0 && 0 * whites == 0) by (nonlinear_arith);
        lemma_corner_image(h, low.tl, FracPoint::at(0, 0), border.tl);
        lemma_corner_image(h, low.bl, FracPoint::at(0, kb.height), border.bl);
    }
    if !kb.is_black(kb.n_keys - 1) {
        let high = kb.rect(kb.n_keys - 1);
        assert(kb.whites_before(kb.n_keys - 1) + 1 == whites);
        assert((kb.width * whites) * 1 == kb.width * whites) by (nonlinear_arith);
        lemma_corner_image(h, high.tr, FracPoint::at(kb.width, 0), border.tr);
        lemma_corner_image(h, high.br, FracPoint::at(kb.width, kb.height), border.br);
    }
}

} // verus!
