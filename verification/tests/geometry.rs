use cosmic_comp::float::{FloatBits, FloatSize};
use cosmic_comp::geometry::{saturating_add, saturating_sub, Point, Rectangle, Size};
use cosmic_comp::transform::Transform;

fn rect(x: i32, y: i32, w: i32, h: i32) -> Rectangle {
    Rectangle {
        loc: Point { x, y },
        size: Size { w, h },
    }
}

fn float(v: f64) -> FloatBits {
    FloatBits { bits: v.to_bits() }
}

#[test]
fn coordinates_saturate() {
    assert_eq!(saturating_add(i32::MAX, 1), i32::MAX);
    assert_eq!(saturating_add(i32::MIN, -1), i32::MIN);
    assert_eq!(saturating_add(3, -5), -2);
    assert_eq!(saturating_sub(i32::MIN, 1), i32::MIN);
    assert_eq!(saturating_sub(i32::MAX, -1), i32::MAX);
    assert_eq!(saturating_sub(3, 5), -2);
}

#[test]
fn intersection_of_overlapping_rectangles() {
    assert_eq!(
        rect(0, 0, 10, 10).intersection(rect(5, 6, 10, 10)),
        Some(rect(5, 6, 5, 4))
    );
    assert_eq!(
        rect(-5, -5, 20, 20).intersection(rect(0, 0, 10, 10)),
        Some(rect(0, 0, 10, 10))
    );
}

#[test]
fn touching_rectangles_do_not_intersect() {
    assert_eq!(rect(0, 0, 10, 10).intersection(rect(10, 0, 10, 10)), None);
    assert_eq!(rect(0, 0, 10, 10).intersection(rect(0, -10, 10, 10)), None);
}

#[test]
fn empty_rectangle_inside_another_intersects_it() {
    assert_eq!(
        rect(0, 0, 10, 10).intersection(rect(5, 5, 0, 3)),
        Some(rect(5, 5, 0, 3))
    );
    assert_eq!(rect(0, 0, 10, 10).intersection(rect(0, 5, 0, 3)), None);
}

#[test]
fn intersection_at_the_bounds_saturates() {
    let far = rect(i32::MAX - 5, 0, 100, 10);
    assert_eq!(far.intersection(rect(i32::MAX - 3, 0, 100, 10)), Some(rect(i32::MAX - 3, 0, 3, 10)));
}

#[test]
fn clipping_without_overlap_is_empty() {
    assert_eq!(rect(20, 20, 5, 5).clip(rect(0, 0, 10, 10)), Rectangle::default());
    assert_eq!(Rectangle::default(), rect(0, 0, 0, 0));
}

#[test]
fn downscale_rounds_down() {
    assert_eq!(Size { w: 1921, h: 3 }.downscale(4), Size { w: 480, h: 0 });
}

#[test]
fn size_difference_is_not_negative() {
    assert_eq!(
        Size { w: 10, h: 5 }.minus(Size { w: 4, h: 8 }),
        Size { w: 6, h: 0 }
    );
}

const ALL: [Transform; 8] = [
    Transform::Normal,
    Transform::_90,
    Transform::_180,
    Transform::_270,
    Transform::Flipped,
    Transform::Flipped90,
    Transform::Flipped180,
    Transform::Flipped270,
];

#[test]
fn transformed_rectangles() {
    let area = Size { w: 100, h: 60 };
    let r = rect(10, 20, 5, 7);
    let expected = [
        rect(10, 20, 5, 7),
        rect(33, 10, 7, 5),
        rect(85, 33, 5, 7),
        rect(20, 85, 7, 5),
        rect(85, 20, 5, 7),
        rect(33, 85, 7, 5),
        rect(10, 33, 5, 7),
        rect(20, 10, 7, 5),
    ];
    for (transform, expected) in ALL.into_iter().zip(expected) {
        assert_eq!(transform.transform_rect_in(r, area), expected);
    }
}

#[test]
fn inverted_transform_undoes() {
    let area = Size { w: 100, h: 60 };
    let r = rect(10, 20, 5, 7);
    for transform in ALL {
        assert_eq!(transform.invert().invert(), transform);
        if matches!(transform, Transform::Flipped90 | Transform::Flipped270) {
            continue;
        }
        let there = transform.transform_rect_in(r, area);
        let back = transform.invert().transform_rect_in(there, transform.transform_size(area));
        assert_eq!(back, r);
    }
}

#[test]
fn inverted_transforms() {
    assert_eq!(Transform::_90.invert(), Transform::_270);
    assert_eq!(Transform::_270.invert(), Transform::_90);
    assert_eq!(Transform::_180.invert(), Transform::_180);
    assert_eq!(Transform::Flipped.invert(), Transform::Flipped);
    assert_eq!(Transform::Flipped90.invert(), Transform::Flipped270);
}

#[test]
fn float_bits_compare_as_numbers() {
    let values = [
        0.0,
        -0.0,
        1.0,
        -1.0,
        1.0000000000000002,
        f64::MIN_POSITIVE,
        5e-324,
        f64::INFINITY,
        f64::NEG_INFINITY,
        f64::NAN,
        -f64::NAN,
    ];
    for a in values {
        assert_eq!(float(a).is_zero(), a == 0.0);
        assert_eq!(float(a).is_nan(), a.is_nan());
        for b in values {
            assert_eq!(float(a).equals(&float(b)), a == b);
        }
    }
}

#[test]
fn float_sizes_compare_by_dimension() {
    let size = |w: f64, h: f64| FloatSize {
        w: float(w),
        h: float(h),
    };
    assert!(size(1.5, 2.5).equals(&size(1.5, 2.5)));
    assert!(!size(1.5, 2.5).equals(&size(1.5, 2.0)));
    assert!(!size(1.5, 2.5).equals(&size(1.0, 2.5)));
    assert!(size(0.0, 2.5).is_empty());
    assert!(size(1.0, -0.0).is_empty());
    assert!(!size(1.0, 2.0).is_empty());
}

#[test]
fn transformed_rectangles_stay_within_the_area() {
    let area = Size { w: 100, h: 60 };
    for transform in ALL {
        let size = transform.transform_size(area);
        for r in [rect(0, 0, 100, 60), rect(99, 59, 1, 1), rect(3, 50, 97, 4)] {
            let after = transform.transform_rect_in(r, area);
            assert!(after.loc.x >= 0 && after.loc.y >= 0);
            assert!(after.loc.x + after.size.w <= size.w);
            assert!(after.loc.y + after.size.h <= size.h);
        }
    }
}
