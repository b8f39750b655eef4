use cosmic_comp::blur::damage::damage_capture_window;
use cosmic_comp::geometry::{Point, Rectangle, Size};

fn rect(x: i32, y: i32, w: i32, h: i32) -> Rectangle {
    Rectangle {
        loc: Point { x, y },
        size: Size { w, h },
    }
}

/// Whether a window of the size `w`, `h` is captured by itself.
fn captured(tw: i32, th: i32, w: i32, h: i32) -> bool {
    damage_capture_window(&[rect(0, 0, w, h)], rect(0, 0, tw, th), Size { w: tw, h: th }, 0)
        .is_some()
}

fn captured_by_floats(tw: i32, th: i32, w: i32, h: i32) -> bool {
    (w as f64) * (h as f64) / ((tw as f64) * (th as f64)) <= 0.85
}

#[test]
fn damage_capture_window_bounding_and_margin() {
    let tex_size = Size { w: 1000, h: 200 };
    let dst = rect(0, 0, 1000, 200);

    let damage = [rect(400, 80, 100, 40)];
    let window = damage_capture_window(&damage, dst, tex_size, 30).unwrap();
    assert!(window.loc.x <= 370 && window.loc.x + window.size.w >= 530);
    assert!(window.loc.y <= 50 && window.loc.y + window.size.h >= 150);

    // multiple rects are bounded together
    let damage = [rect(100, 10, 20, 10), rect(800, 150, 20, 10)];
    let window = damage_capture_window(&damage, dst, tex_size, 10).unwrap();
    assert!(window.loc.x <= 90 && window.loc.x + window.size.w >= 830);
    assert!(window.loc.y <= 0 && window.loc.y + window.size.h >= 170);

    // damage covering (nearly) everything is not worth a partial capture
    let damage = [rect(0, 0, 999, 199)];
    assert!(damage_capture_window(&damage, dst, tex_size, 30).is_none());

    // no damage, or a geometry mismatching the texture, cannot be partial
    assert!(damage_capture_window(&[], dst, tex_size, 30).is_none());
    let mismatching = rect(0, 0, 500, 100);
    let damage = [rect(10, 10, 20, 20)];
    assert!(damage_capture_window(&damage, mismatching, tex_size, 30).is_none());
}

#[test]
fn capture_window_exact_values() {
    let tex_size = Size { w: 1000, h: 200 };
    let dst = rect(77, -5, 1000, 200);
    assert_eq!(
        damage_capture_window(&[rect(400, 80, 100, 40)], dst, tex_size, 30),
        Some(rect(370, 50, 160, 100))
    );
    assert_eq!(
        damage_capture_window(
            &[rect(100, 10, 20, 10), rect(800, 150, 20, 10)],
            dst,
            tex_size,
            10
        ),
        Some(rect(90, 0, 740, 170))
    );
    // what lies outside the texture does not count
    assert_eq!(
        damage_capture_window(
            &[rect(-50, -50, 60, 60), rect(5000, 0, 10, 10), rect(990, 190, 50, 50)],
            dst,
            tex_size,
            5
        ),
        None
    );
    assert_eq!(
        damage_capture_window(&[rect(-50, -50, 60, 60), rect(5000, 0, 9, 9)], dst, tex_size, 5),
        Some(rect(0, 0, 15, 15))
    );
}

#[test]
fn damage_beside_the_texture_leads_to_no_window() {
    let dst = rect(0, 0, 100, 100);
    let tex_size = Size { w: 100, h: 100 };
    assert!(damage_capture_window(&[rect(100, 0, 10, 10)], dst, tex_size, 50).is_none());
    assert!(damage_capture_window(&[rect(0, -10, 10, 10)], dst, tex_size, 50).is_none());
}

#[test]
fn empty_damage_without_margin_leads_to_no_window() {
    let dst = rect(0, 0, 100, 100);
    let tex_size = Size { w: 100, h: 100 };
    assert!(damage_capture_window(&[rect(50, 50, 0, 10)], dst, tex_size, 0).is_none());
    assert_eq!(
        damage_capture_window(&[rect(50, 50, 0, 10)], dst, tex_size, 1),
        Some(rect(49, 49, 2, 12))
    );
}

#[test]
fn sizes_may_differ_by_a_pixel() {
    let tex_size = Size { w: 100, h: 100 };
    let damage = [rect(10, 10, 5, 5)];
    for (w, h, partial) in [
        (100, 100, true),
        (101, 99, true),
        (99, 101, true),
        (102, 100, false),
        (98, 100, false),
        (100, 102, false),
        (100, 98, false),
    ] {
        let window = damage_capture_window(&damage, rect(0, 0, w, h), tex_size, 2);
        assert_eq!(window.is_some(), partial);
    }
}

#[test]
fn fraction_is_85_percent() {
    assert!(captured(100, 100, 85, 100));
    assert!(!captured(100, 100, 86, 100));
    assert!(captured(20, 1, 17, 1));
    assert!(!captured(20, 1, 18, 1));
    assert!(!captured(1, 1, 1, 1));
}

#[test]
fn fraction_agrees_with_floating_point() {
    for tw in [1, 7, 20, 1000, 1920, 3840, 65535] {
        for th in [1, 20, 33, 1080, 2160, 65535] {
            let area = tw as i64 * th as i64;
            for w in [tw, tw * 9 / 10, tw * 17 / 20, tw * 17 / 20 + 1] {
                if w < 1 || w > tw {
                    continue;
                }
                let close = (area * 17 / 20 / w as i64) as i32;
                for h in [close - 1, close, close + 1, th] {
                    if h < 1 || h > th {
                        continue;
                    }
                    assert_eq!(captured(tw, th, w, h), captured_by_floats(tw, th, w, h));
                }
            }
        }
    }
}

#[test]
fn fraction_of_huge_textures_is_rounded() {
    let mut w: i64 = 1_825_361_101;
    for tw in [i32::MAX, i32::MAX - 7, 2_000_000_011] {
        for th in [i32::MAX, i32::MAX - 1, 1_999_999_973] {
            for _ in 0..200 {
                w = 1_700_000_000 + (w * 48_271) % 300_000_000;
                let close = tw as i128 * th as i128 * 17 / 20 / w as i128;
                for h in [close - 1, close, close + 1] {
                    if h > th as i128 || w > tw as i64 {
                        continue;
                    }
                    assert_eq!(
                        captured(tw, th, w as i32, h as i32),
                        captured_by_floats(tw, th, w as i32, h as i32)
                    );
                }
            }
        }
    }
}

#[test]
fn order_and_repetition_of_damage_do_not_matter() {
    let tex_size = Size { w: 1000, h: 200 };
    let dst = rect(0, 0, 1000, 200);
    let (a, b, c) = (rect(100, 10, 20, 10), rect(-5, 50, 20, 10), rect(300, 150, 20, 10));
    let outside = [rect(1000, 0, 50, 50), rect(5, -20, 10, 20), rect(-90, 500, 3, 3)];
    let window = damage_capture_window(&[a, b, c], dst, tex_size, 10);
    assert_eq!(window, Some(rect(0, 0, 330, 170)));
    for damage in [
        vec![c, b, a],
        vec![b, b, a, c, a],
        vec![outside[0], c, outside[1], a, b, outside[2]],
    ] {
        assert_eq!(damage_capture_window(&damage, dst, tex_size, 10), window);
    }
    assert_eq!(damage_capture_window(&outside, dst, tex_size, 10), None);
    assert_eq!(damage_capture_window(&[], dst, tex_size, 10), None);
}
