use virtual_piano::convert::{IbFrom, IbInto, PixelPoint};
use virtual_piano::geometry::{IbRectangle, Point, Ratio};
use virtual_piano::piano::{Piano, Piano2D, Piano3D, KEY_LIMIT};
use virtual_piano::projector::{
    DegenerateGeometryError, Projector, COORD_LIMIT, DEN_LIMIT, NUM_LIMIT,
};

fn ratio(num: i128, den: i128) -> Ratio {
    Ratio { num, den }
}

fn is_whole(r: Ratio, v: i128) -> bool {
    r.den > 0 && r.num == v * r.den
}

fn is_at(p: Point, x: i128, y: i128) -> bool {
    is_whole(p.x, x) && is_whole(p.y, y)
}

fn as_float(r: Ratio) -> f64 {
    r.num as f64 / r.den as f64
}

fn camera_border() -> IbRectangle {
    IbRectangle::new((625, 767), (1662, 242), (1824, 267), (835, 905))
}

#[test]
fn limits_are_what_the_arithmetic_is_sized_for() {
    assert_eq!(COORD_LIMIT, 32767);
    assert_eq!(NUM_LIMIT, 1 << 36);
    assert_eq!(DEN_LIMIT, 1 << 22);
    assert_eq!(KEY_LIMIT, 65536);
}

#[test]
fn corners_of_the_flat_image_go_to_the_border() {
    let border = camera_border();
    let projector = Projector::new(1920, 240, &border).unwrap();
    let corners = vec![Point::at(0, 0), Point::at(1920, 0), Point::at(1920, 240), Point::at(0, 240)];
    let images = projector.project(&corners).unwrap();
    assert_eq!(images.len(), 4);
    assert!(is_at(images[0], 625, 767));
    assert!(is_at(images[1], 1662, 242));
    assert!(is_at(images[2], 1824, 267));
    assert!(is_at(images[3], 835, 905));
    for image in &images {
        assert!(image.x.den > 0);
        assert_eq!(image.x.den, image.y.den);
    }
    assert!((as_float(images[0].x) - 625.0).abs() < 1e-3);
    assert!((as_float(images[2].y) - 267.0).abs() < 1e-3);
}

#[test]
fn corners_go_to_the_border_whatever_its_orientation() {
    let borders = [
        IbRectangle::new((0, 0), (10, 0), (10, 10), (0, 10)),
        IbRectangle::new((0, 10), (10, 10), (10, 0), (0, 0)),
        IbRectangle::new((-5, -7), (40, 3), (31, 29), (-2, 11)),
        IbRectangle::new((0, 0), (10, 10), (10, 0), (0, 10)),
        IbRectangle::new((-32767, -32767), (32767, -32767), (32767, 32767), (-32767, 32767)),
    ];
    for border in borders {
        let projector = Projector::new(32767, 32767, &border).unwrap();
        let corners = vec![
            Point::at(0, 0),
            Point::at(32767, 0),
            Point::at(32767, 32767),
            Point::at(0, 32767),
        ];
        let images = projector.project(&corners).unwrap();
        let expected = [border.tl, border.tr, border.br, border.bl];
        for (image, corner) in images.iter().zip(expected) {
            assert!(is_at(*image, corner.x.num, corner.y.num));
        }
    }
}

#[test]
fn identity_border_leaves_points_where_they_are() {
    let border = IbRectangle::new((0, 0), (8, 0), (8, 4), (0, 4));
    let projector = Projector::new(8, 4, &border).unwrap();
    let p = Point { x: ratio(7, 2), y: ratio(-5, 3) };
    let q = projector.project_point(p).unwrap();
    assert_eq!(q.x.num * 2, 7 * q.x.den);
    assert_eq!(q.y.num * 3, -5 * q.y.den);
    assert!(q.x.den > 0);
}

#[test]
fn shifted_and_scaled_border_maps_linearly() {
    // Twice as wide, three times as high, moved by (10, 20).
    let border = IbRectangle::new((10, 20), (26, 20), (26, 32), (10, 32));
    let projector = Projector::new(8, 4, &border).unwrap();
    let q = projector.project_point(Point { x: ratio(1, 2), y: ratio(1, 4) }).unwrap();
    assert_eq!(q.x.num, 11 * q.x.den);
    assert_eq!(q.y.num * 4, 83 * q.y.den);
}

#[test]
fn trapezoid_follows_the_projective_formula() {
    // The unit square onto a trapezoid that narrows towards the top.
    let border = IbRectangle::new((1, 0), (3, 0), (4, 2), (0, 2));
    let projector = Projector::new(1, 1, &border).unwrap();
    let centre = projector.project_point(Point { x: ratio(1, 2), y: ratio(1, 2) }).unwrap();
    // The centre goes to where the diagonals of the trapezoid cross.
    assert_eq!(centre.x.num, 2 * centre.x.den);
    assert_eq!(centre.y.num * 3, 2 * centre.y.den);
}

#[test]
fn collinear_border_is_refused() {
    let on_a_line = IbRectangle::new((0, 0), (10, 0), (20, 0), (30, 0));
    assert_eq!(
        Projector::new(1920, 240, &on_a_line).err(),
        Some(DegenerateGeometryError::CollinearBorder)
    );
    let piano2d = Piano2D::new(1920, 240, 0, 88);
    assert_eq!(
        Piano3D::new(on_a_line, piano2d).err(),
        Some(DegenerateGeometryError::CollinearBorder)
    );
}

#[test]
fn border_with_three_corners_on_a_line_is_refused() {
    let borders = [
        IbRectangle::new((0, 0), (5, 0), (10, 0), (0, 10)),
        IbRectangle::new((0, 0), (10, 0), (10, 10), (5, 5)),
        IbRectangle::new((3, 3), (3, 3), (3, 3), (3, 3)),
        IbRectangle::new((0, 0), (10, 0), (10, 0), (0, 10)),
        IbRectangle::new((0, 0), (4, 4), (8, 8), (2, 2)),
    ];
    for border in borders {
        assert_eq!(
            Projector::new(100, 100, &border).err(),
            Some(DegenerateGeometryError::CollinearBorder)
        );
    }
}

#[test]
fn point_on_the_horizon_has_no_image() {
    // The bottom edge of the border is twice as long as its top edge:
    // the points one image height below the image go to infinity.
    let border = IbRectangle::new((1, 0), (3, 0), (4, 2), (0, 2));
    let projector = Projector::new(4, 2, &border).unwrap();
    assert_eq!(projector.project_point(Point::at(0, 4)), None);
    assert_eq!(projector.project_point(Point { x: ratio(7, 3), y: ratio(8, 2) }), None);
    assert_eq!(
        projector.project(&vec![Point::at(0, 0), Point::at(3, 4)]),
        Err(DegenerateGeometryError::PointAtInfinity)
    );
    // On both sides of that line the denominator is made positive.
    let before = projector.project_point(Point::at(0, 3)).unwrap();
    let beyond = projector.project_point(Point::at(0, 6)).unwrap();
    assert!(before.x.den > 0 && before.y.den > 0);
    assert!(beyond.x.den > 0 && beyond.y.den > 0);
    // Halfway down the image is a third of the way down the border.
    let left = projector.project_point(Point::at(0, 1)).unwrap();
    let right = projector.project_point(Point::at(4, 1)).unwrap();
    assert_eq!(left.x.num * 3, 2 * left.x.den);
    assert_eq!(right.x.num * 3, 10 * right.x.den);
    assert_eq!(left.y.num * 3, 2 * left.y.den);
    assert_eq!(right.y.num * 3, 2 * right.y.den);
}

#[test]
fn projection_keeps_count_and_order() {
    let border = camera_border();
    let projector = Projector::new(1920, 240, &border).unwrap();
    let points: Vec<Point> = (0..7).map(|i| Point::at(i * 100, i * 10)).collect();
    let images = projector.project(&points).unwrap();
    assert_eq!(images.len(), 7);
    for (p, image) in points.iter().zip(&images) {
        assert_eq!(projector.project_point(*p), Some(*image));
    }
    assert_eq!(projector.project(&Vec::new()), Ok(Vec::new()));
}

#[test]
fn warped_keyboard_is_the_flat_one_projected() {
    let border = camera_border();
    let projector = Projector::new(1920, 240, &border).unwrap();
    let mut flat = Piano2D::new(1920, 240, 0, 88);
    let mut piano = Piano3D::new(border, Piano2D::new(1920, 240, 0, 88)).unwrap();
    assert_eq!(piano.get_border(), border);
    assert_eq!(piano.piano2d().n_keys(), 88);
    for key in 0..88 {
        let src = flat.get_vector(key).unwrap();
        let expected = projector.project(&src).unwrap();
        let r = piano.get_ib_rect(key).unwrap();
        assert_eq!(vec![r.tl, r.tr, r.br, r.bl], expected);
        assert_eq!(piano.get_vector(key).unwrap(), expected);
        assert_eq!(piano.perspective_transform(&src).unwrap(), expected);
        assert_eq!(piano.get_ib_rect(key).unwrap(), r);
        assert_eq!(piano.is_black(key), flat.is_black(key));
    }
}

#[test]
fn outer_corners_of_the_warped_keyboard_are_the_border() {
    let border = camera_border();
    let mut piano = Piano3D::new(border, Piano2D::new(1920, 240, 0, 88)).unwrap();
    let first = piano.get_ib_rect(0).unwrap();
    let last = piano.get_ib_rect(87).unwrap();
    assert!(is_at(first.tl, 625, 767));
    assert!(is_at(first.bl, 835, 905));
    assert!(is_at(last.tr, 1662, 242));
    assert!(is_at(last.br, 1824, 267));
}

#[test]
fn scaled_rectangle_reaches_a_quarter_beyond_each_end() {
    // With the identity as the transform the scaled rectangle is the
    // flat one, drawn out.
    let border = IbRectangle::new((0, 0), (1920, 0), (1920, 240), (0, 240));
    let mut piano = Piano3D::new(border, Piano2D::new(1920, 240, 0, 88)).unwrap();
    let mut flat = Piano2D::new(1920, 240, 0, 88);
    let white = piano.scaled_rectangle_for(0, 3, 2).unwrap();
    assert!(is_whole(white.tl.y, -60));
    assert!(is_whole(white.tr.y, -60));
    assert!(is_whole(white.bl.y, 300));
    assert!(is_whole(white.br.y, 300));
    let plain = flat.get_ib_rect(0).unwrap();
    assert_eq!(white.tl.x.num * plain.tl.x.den, plain.tl.x.num * white.tl.x.den);
    assert_eq!(white.tr.x.num * plain.tr.x.den, plain.tr.x.num * white.tr.x.den);
    // A black key is 156 high: a quarter of that is 39.
    let black = piano.scaled_rectangle_for(1, 3, 2).unwrap();
    assert!(is_whole(black.tl.y, -39));
    assert!(is_whole(black.bl.y, 195));
    // A scale of one changes nothing, and a smaller one draws in.
    let same = piano.scaled_rectangle_for(0, 7, 7).unwrap();
    assert!(is_whole(same.tl.y, 0) && is_whole(same.bl.y, 240));
    let half = piano.scaled_rectangle_for(0, 1, 2).unwrap();
    assert!(is_whole(half.tl.y, 60) && is_whole(half.bl.y, 180));
}

#[test]
fn scale_height_is_exact_on_the_flat_rectangle() {
    let r = IbRectangle {
        tl: Point { x: ratio(1, 3), y: ratio(0, 1) },
        tr: Point { x: ratio(2, 3), y: ratio(0, 1) },
        br: Point { x: ratio(2, 3), y: ratio(3120, 20) },
        bl: Point { x: ratio(1, 3), y: ratio(3120, 20) },
    };
    let tall = r.scale_height(3, 2);
    assert_eq!(tall.tl.y, ratio(-3120, 80));
    assert_eq!(tall.bl.y, ratio(3120 * 4 + 3120, 80));
    assert_eq!(tall.tr.y, tall.tl.y);
    assert_eq!(tall.br.y, tall.bl.y);
    assert_eq!(tall.tl.x, r.tl.x);
    assert_eq!(tall.br.x, r.br.x);
    // A top that is not zero moves by the same amount.
    let moved = IbRectangle {
        tl: Point { x: ratio(0, 1), y: ratio(10, 1) },
        tr: Point { x: ratio(1, 1), y: ratio(10, 1) },
        br: Point { x: ratio(1, 1), y: ratio(30, 1) },
        bl: Point { x: ratio(0, 1), y: ratio(30, 1) },
    };
    let taller = moved.scale_height(2, 1);
    assert!(is_whole(taller.tl.y, 0));
    assert!(is_whole(taller.bl.y, 40));
}

#[test]
fn warped_keyboard_of_one_black_key_has_no_rectangle() {
    let border = camera_border();
    let mut piano = Piano3D::new(border, Piano2D::new(100, 10, 1, 1)).unwrap();
    assert_eq!(piano.key_count(), 1);
    assert_eq!(piano.white_key_count(), 0);
    assert_eq!(piano.get_ib_rect(0), Err(DegenerateGeometryError::NoWhiteKey));
    assert_eq!(piano.get_vector(0), Err(DegenerateGeometryError::NoWhiteKey));
    assert_eq!(piano.scaled_rectangle_for(0, 3, 2), Err(DegenerateGeometryError::NoWhiteKey));
}

#[test]
fn key_whose_corner_goes_to_infinity_has_no_rectangle() {
    // The points one image height below the image go to infinity, and a
    // scale of three draws a white key out to there.
    let border = IbRectangle::new((1, 0), (3, 0), (4, 2), (0, 2));
    let mut piano = Piano3D::new(border, Piano2D::new(4, 2, 0, 3)).unwrap();
    assert!(piano.get_ib_rect(0).is_ok());
    assert_eq!(piano.scaled_rectangle_for(0, 3, 1), Err(DegenerateGeometryError::PointAtInfinity));
    assert!(piano.scaled_rectangle_for(0, 2, 1).is_ok());
    // A border that crosses itself sends the middle of the image to
    // infinity: the key that ends there has no rectangle.
    let crossed = IbRectangle::new((0, 0), (10, 10), (10, 0), (0, 10));
    let mut bow = Piano3D::new(crossed, Piano2D::new(10, 10, 2, 2)).unwrap();
    assert_eq!(bow.get_ib_rect(0), Err(DegenerateGeometryError::PointAtInfinity));
    assert_eq!(bow.get_ib_rect(0), Err(DegenerateGeometryError::PointAtInfinity));
}

#[test]
fn scaled_rectangle_is_not_kept() {
    let border = camera_border();
    let mut piano = Piano3D::new(border, Piano2D::new(1920, 240, 0, 88)).unwrap();
    let scaled = piano.scaled_rectangle_for(21, 3, 2).unwrap();
    let plain = piano.get_ib_rect(21).unwrap();
    assert_ne!(scaled, plain);
    assert_eq!(piano.scaled_rectangle_for(21, 3, 2).unwrap(), scaled);
    assert_eq!(piano.get_ib_rect(21).unwrap(), plain);
}

#[test]
fn pixel_is_the_point_cut_down_towards_zero() {
    assert_eq!(ratio(7, 2).to_pixel(), 3);
    assert_eq!(ratio(-7, 2).to_pixel(), -3);
    assert_eq!(ratio(-6, 2).to_pixel(), -3);
    assert_eq!(ratio(-1, 2).to_pixel(), 0);
    assert_eq!(ratio(0, 5).to_pixel(), 0);
    assert_eq!(ratio(1 << 40, 1).to_pixel(), i32::MAX);
    assert_eq!(ratio(-(1 << 40), 1).to_pixel(), i32::MIN);
    assert_eq!(ratio(i32::MIN as i128, 1).to_pixel(), i32::MIN);
    assert_eq!(ratio(i32::MAX as i128, 1).to_pixel(), i32::MAX);
    assert_eq!(ratio(i128::MIN, 1).to_pixel(), i32::MIN);
    assert_eq!(ratio(i128::MIN, i128::MAX).to_pixel(), -1);
    assert_eq!(ratio(i128::MAX, i128::MAX).to_pixel(), 1);
    assert_eq!(ratio(-(i32::MAX as i128) - 2, 1).to_pixel(), i32::MIN);
}

#[test]
fn conversions_go_both_ways() {
    let p = Point { x: ratio(7, 2), y: ratio(-9, 4) };
    let pixel: PixelPoint = p.ib_into();
    assert_eq!(pixel, PixelPoint { x: 3, y: -2 });
    let back: Point = pixel.ib_into();
    assert_eq!(back, Point::at(3, -2));
    let from_pair: Point = (5, -6).ib_into();
    assert_eq!(from_pair, Point::at(5, -6));

    let pixels: Vec<PixelPoint> = vec![p, Point::at(1, 2)].ib_into();
    assert_eq!(pixels, vec![PixelPoint { x: 3, y: -2 }, PixelPoint { x: 1, y: 2 }]);
    let points: Vec<Point> = pixels.ib_into();
    assert_eq!(points, vec![Point::at(3, -2), Point::at(1, 2)]);

    let r = IbRectangle::new((0, 1), (2, 3), (4, 5), (6, 7));
    let corners: Vec<Point> = r.ib_into();
    assert_eq!(corners, vec![Point::at(0, 1), Point::at(2, 3), Point::at(4, 5), Point::at(6, 7)]);
    let again = IbRectangle::ib_from(corners);
    assert_eq!(again, r);
}
