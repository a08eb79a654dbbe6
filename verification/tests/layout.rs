use virtual_piano::geometry::{IbRectangle, Point, Ratio};
use virtual_piano::pattern::{is_black_class, key_type, KEY_PATTERN};
use virtual_piano::piano::{Piano, Piano2D};
use virtual_piano::projector::DegenerateGeometryError;

fn ratio(num: i128, den: i128) -> Ratio {
    Ratio { num, den }
}

fn same_value(a: Ratio, b: Ratio) -> bool {
    a.den > 0 && b.den > 0 && a.num * b.den == b.num * a.den
}

fn below(a: Ratio, b: Ratio) -> bool {
    a.num * b.den < b.num * a.den
}

#[test]
fn pattern_has_five_black_classes() {
    let expected = [
        false, true, false, false, true, false, true, false, false, true, false, true,
    ];
    assert_eq!(KEY_PATTERN, expected);
    for pc in 0..12 {
        assert_eq!(is_black_class(pc), expected[pc]);
    }
}

#[test]
fn class_follows_pattern_for_every_start() {
    for start_key in 0..30usize {
        let piano = Piano2D::new(100, 10, start_key, 40);
        for key in 0..40usize {
            let expected = KEY_PATTERN[(start_key + key) % 12];
            assert_eq!(piano.is_black(key), expected);
            assert_eq!(piano.is_black(key), expected);
            assert_eq!(key_type(start_key, key), expected);
        }
    }
}

#[test]
fn class_of_a_huge_start_key_does_not_overflow() {
    let start_key = usize::MAX - 3;
    let piano = Piano2D::new(100, 10, start_key, 12);
    let first_class = start_key % 12;
    for key in 0..12usize {
        assert_eq!(piano.is_black(key), KEY_PATTERN[(first_class + key) % 12]);
    }
}

#[test]
fn getters_return_the_configuration() {
    let piano = Piano2D::new(1920, 240, 9, 88);
    assert_eq!(piano.width(), 1920);
    assert_eq!(piano.height(), 240);
    assert_eq!(piano.start_key(), 9);
    assert_eq!(piano.n_keys(), 88);
    // From F sharp, 88 keys hold seven octaves of seven white keys and
    // two more among the last four keys.
    assert_eq!(piano.n_white_keys(), 51);
}

#[test]
fn full_keyboard_has_fifty_two_white_keys() {
    let piano = Piano2D::new(1920, 240, 0, 88);
    assert_eq!(piano.n_white_keys(), 52);
    let blacks = (0..88).filter(|&k| piano.is_black(k)).count();
    assert_eq!(blacks, 36);
}

#[test]
fn white_key_rectangle_is_exact() {
    let mut piano = Piano2D::new(1920, 240, 0, 88);
    let first = piano.get_ib_rect(0).unwrap();
    assert_eq!(
        first,
        IbRectangle {
            tl: Point { x: ratio(0, 52), y: ratio(0, 1) },
            tr: Point { x: ratio(1920, 52), y: ratio(0, 1) },
            br: Point { x: ratio(1920, 52), y: ratio(240, 1) },
            bl: Point { x: ratio(0, 52), y: ratio(240, 1) },
        }
    );
    // Key 3 is the third white key (A, B, C).
    let third = piano.get_ib_rect(3).unwrap();
    assert_eq!(third.tl.x, ratio(1920 * 2, 52));
    assert_eq!(third.tr.x, ratio(1920 * 3, 52));
    assert_eq!(third.bl.y, ratio(240, 1));
}

#[test]
fn single_black_key_sits_in_the_middle_third() {
    // Key 1 (A sharp) is alone between keys 0 and 2: a span of two white
    // keys cut into three segments, the key starting at the second.
    let mut piano = Piano2D::new(1920, 240, 0, 88);
    let r = piano.get_ib_rect(1).unwrap();
    assert_eq!(r.tl.x, ratio(1920 * 2, 52 * 3));
    assert_eq!(r.tr.x, ratio(1920 * 7, 2 * 52 * 3));
    assert_eq!(r.tl.y, ratio(0, 1));
    assert_eq!(r.bl.y, ratio(13 * 240, 20));
    assert_eq!(r.tr.y, r.tl.y);
    assert_eq!(r.br.y, r.bl.y);
    assert_eq!(r.bl.x, r.tl.x);
    assert_eq!(r.br.x, r.tr.x);
    // Half a white key wide.
    let width = ratio(r.tr.x.num * r.tl.x.den - r.tl.x.num * r.tr.x.den, r.tr.x.den * r.tl.x.den);
    assert!(same_value(width, ratio(1920, 2 * 52)));
}

#[test]
fn pair_of_black_keys_splits_the_span_in_five() {
    // Keys 4 and 6 (C sharp, D sharp) lie between the white keys 3, 5, 7,
    // which are the white keys number 2, 3 and 4.
    let mut piano = Piano2D::new(1920, 240, 0, 88);
    let left = piano.get_ib_rect(4).unwrap();
    let right = piano.get_ib_rect(6).unwrap();
    assert_eq!(left.tl.x, ratio(1920 * (2 * 5 + 3 * 1), 52 * 5));
    assert_eq!(right.tl.x, ratio(1920 * (2 * 5 + 3 * 3), 52 * 5));
    assert!(same_value(left.tl.x, ratio(96, 1)));
}

#[test]
fn triple_of_black_keys_splits_the_span_in_seven() {
    // Keys 9, 11, 13 (F sharp, G sharp, A sharp) occupy segments 1, 3, 5
    // of the span of the white keys 8, 10, 12, 14.
    let mut piano = Piano2D::new(1920, 240, 0, 88);
    let anchor: i128 = 5; // white keys 0, 2, 3, 5, 7 lie below key 8
    for (rank, key) in [9usize, 11, 13].into_iter().enumerate() {
        let r = piano.get_ib_rect(key).unwrap();
        let segment = 2 * rank as i128 + 1;
        assert_eq!(r.tl.x, ratio(1920 * (anchor * 7 + 4 * segment), 52 * 7));
        assert_eq!(r.bl.y, ratio(13 * 240, 20));
    }
}

#[test]
fn cluster_cut_off_at_the_start_uses_the_white_keys_that_exist() {
    // The keyboard starts on A sharp: the cluster has no white key to its
    // left, and its span is the one white key to its right.
    let mut piano = Piano2D::new(700, 100, 1, 12);
    assert!(piano.is_black(0));
    assert_eq!(piano.n_white_keys(), 7);
    let r = piano.get_ib_rect(0).unwrap();
    assert_eq!(r.tl.x, ratio(700 * 1, 7 * 3));
    assert_eq!(r.tr.x, ratio(700 * (2 * 1 + 3), 2 * 7 * 3));
}

#[test]
fn cluster_cut_off_at_the_end_uses_the_white_keys_that_exist() {
    // Five keys from F: F, F sharp, G, G sharp, A. Then four keys: the
    // last key is G sharp and has no white key to its right.
    let mut piano = Piano2D::new(300, 100, 8, 4);
    assert!(piano.is_black(1));
    assert!(piano.is_black(3));
    assert_eq!(piano.n_white_keys(), 2);
    // Two black keys, two white keys: five segments over a span of two.
    let first = piano.get_ib_rect(1).unwrap();
    let last = piano.get_ib_rect(3).unwrap();
    assert_eq!(first.tl.x, ratio(300 * (0 * 5 + 2 * 1), 2 * 5));
    assert_eq!(last.tl.x, ratio(300 * (0 * 5 + 2 * 3), 2 * 5));
    assert_eq!(last.tr.x, ratio(300 * (2 * 6 + 5), 2 * 2 * 5));
    assert!(below(last.tr.x, ratio(300, 1)));
}

#[test]
fn white_widths_of_one_octave_add_up_to_the_width() {
    for start_key in [0usize, 3, 12, 15] {
        let mut piano = Piano2D::new(1400, 200, start_key, 12);
        let mut sum = ratio(0, 1);
        for key in 0..12 {
            if piano.is_black(key) {
                continue;
            }
            let r = piano.get_ib_rect(key).unwrap();
            let width =
                ratio(r.tr.x.num * r.tl.x.den - r.tl.x.num * r.tr.x.den, r.tr.x.den * r.tl.x.den);
            sum = ratio(sum.num * width.den + width.num * sum.den, sum.den * width.den);
        }
        assert!(same_value(sum, ratio(1400, 1)));
    }
}

#[test]
fn white_keys_tile_the_keyboard() {
    let mut piano = Piano2D::new(1920, 240, 0, 88);
    let mut edge = ratio(0, 1);
    for key in 0..88 {
        if piano.is_black(key) {
            continue;
        }
        let r = piano.get_ib_rect(key).unwrap();
        assert!(same_value(r.tl.x, edge));
        edge = r.tr.x;
    }
    assert!(same_value(edge, ratio(1920, 1)));
}

#[test]
fn black_keys_lie_strictly_between_their_white_neighbours() {
    let mut piano = Piano2D::new(1920, 240, 0, 88);
    for key in 1..87 {
        if !piano.is_black(key) {
            continue;
        }
        let r = piano.get_ib_rect(key).unwrap();
        let left_white = piano.get_ib_rect(key - 1).unwrap();
        let right_white = piano.get_ib_rect(key + 1).unwrap();
        assert!(below(left_white.tl.x, r.tl.x));
        assert!(below(r.tr.x, right_white.tr.x));
        assert!(same_value(r.bl.y, ratio(65 * 240, 100)));
        assert_eq!(r.tl.y, ratio(0, 1));
    }
}

#[test]
fn two_black_keys_with_no_white_neighbour_outside_reach_past_the_span() {
    // C sharp, D, D sharp: the one white key is the whole span, and the
    // right black key ends beyond it.
    let mut piano = Piano2D::new(100, 10, 4, 3);
    let white = piano.get_ib_rect(1).unwrap();
    let left = piano.get_ib_rect(0).unwrap();
    let right = piano.get_ib_rect(2).unwrap();
    assert!(below(white.tl.x, left.tl.x));
    assert!(below(left.tr.x, white.tr.x));
    assert_eq!(right.tr.x, ratio(100 * (2 * 3 + 5), 2 * 5));
    assert!(below(white.tr.x, right.tr.x));
}

#[test]
fn rectangle_is_the_same_on_every_call() {
    let mut piano = Piano2D::new(1920, 240, 0, 88);
    for key in 0..88 {
        let first = piano.get_ib_rect(key).unwrap();
        let second = piano.get_ib_rect(key).unwrap();
        assert_eq!(first, second);
        let corners = piano.get_vector(key).unwrap();
        assert_eq!(corners, vec![first.tl, first.tr, first.br, first.bl]);
    }
    let mut fresh = Piano2D::new(1920, 240, 0, 88);
    for key in (0..88).rev() {
        assert_eq!(fresh.get_ib_rect(key), piano.get_ib_rect(key));
    }
}

#[test]
fn keyboard_of_one_black_key_has_no_key_width() {
    let mut piano = Piano2D::new(100, 10, 1, 1);
    assert!(piano.is_black(0));
    assert_eq!(piano.n_white_keys(), 0);
    assert_eq!(piano.white_key_count(), 0);
    assert_eq!(piano.key_count(), 1);
    assert_eq!(piano.get_ib_rect(0), Err(DegenerateGeometryError::NoWhiteKey));
    assert_eq!(piano.get_vector(0), Err(DegenerateGeometryError::NoWhiteKey));
    // One white key alone takes the whole width.
    let mut white = Piano2D::new(100, 10, 0, 1);
    let r = white.get_ib_rect(0).unwrap();
    assert_eq!(r.tl.x, ratio(0, 1));
    assert_eq!(r.tr.x, ratio(100, 1));
}

#[test]
fn vector_holds_the_corners_in_winding_order() {
    let mut piano = Piano2D::new(1920, 240, 0, 88);
    let r = piano.get_ib_rect(10).unwrap();
    let v = piano.get_vector(10).unwrap();
    assert_eq!(v, vec![r.tl, r.tr, r.br, r.bl]);
}

#[test]
fn rectangle_from_pairs_keeps_the_corners() {
    let r = IbRectangle::new((625, 767), (1662, 242), (1824, 267), (835, 905));
    assert_eq!(r.tl, Point { x: ratio(625, 1), y: ratio(767, 1) });
    assert_eq!(r.tr, Point { x: ratio(1662, 1), y: ratio(242, 1) });
    assert_eq!(r.br, Point { x: ratio(1824, 1), y: ratio(267, 1) });
    assert_eq!(r.bl, Point { x: ratio(835, 1), y: ratio(905, 1) });
    assert_eq!(Point::at(-3, 4), Point { x: ratio(-3, 1), y: ratio(4, 1) });
    assert_eq!(Ratio::new(3, 4), ratio(3, 4));
    assert_eq!(Ratio::from_int(-9), ratio(-9, 1));
}
