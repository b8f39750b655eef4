use cosmic_comp::blur::offset::BlurOffset;
use cosmic_comp::blur::params::blur_params;
use cosmic_comp::blur::windows::{blur_level_windows, expand_rect, halve_rect};
use cosmic_comp::geometry::{Point, Rectangle, Size};

fn rect(x: i32, y: i32, w: i32, h: i32) -> Rectangle {
    Rectangle {
        loc: Point { x, y },
        size: Size { w, h },
    }
}

fn whole(offset: u32) -> BlurOffset {
    BlurOffset { num: offset, den: 1 }
}

/// The pads of a level, computed in floating point.
fn float_pads(offset: f64, level: usize) -> (i32, i32) {
    let down = (offset / (1u64 << level) as f64 * 0.5).ceil() as i32 + 1;
    let up = (offset / (1u64 << (level + 1)) as f64).ceil() as i32 + 1;
    (down, up)
}

#[test]
fn blur_level_windows_stay_within_levels() {
    let tex_size = Size { w: 1920, h: 160 };
    let window = rect(100, 20, 300, 40);
    for offset in [1, 4, 8] {
        let windows = blur_level_windows(tex_size, window, whole(offset), 4);
        assert_eq!(windows.len(), 5);
        for (i, w) in windows.iter().enumerate() {
            let level = Rectangle::from_size(tex_size.downscale(1 << i));
            assert_eq!(
                *w,
                w.intersection(level).unwrap_or_default(),
                "level {i} window must be clamped to its level"
            );
            assert!(!w.is_empty(), "level {i} window must not be empty");
        }
    }
}

#[test]
fn blur_level_windows_clamp_at_edges() {
    let tex_size = Size { w: 500, h: 100 };
    let window = rect(0, 0, 10, 10);
    let windows = blur_level_windows(tex_size, window, whole(8), 4);
    for (i, w) in windows.iter().enumerate() {
        assert!(w.loc.x >= 0 && w.loc.y >= 0, "level {i}");
        let level = tex_size.downscale(1 << i);
        assert!(w.loc.x + w.size.w <= level.w, "level {i}");
        assert!(w.loc.y + w.size.h <= level.h, "level {i}");
    }
}

#[test]
fn blur_level_windows_exact_values() {
    // The pads are 5 and 3.
    let windows = blur_level_windows(
        Size { w: 1000, h: 200 },
        rect(101, 50, 100, 21),
        whole(8),
        2,
    );
    assert_eq!(windows.len(), 3);
    assert_eq!(windows[0], rect(101, 50, 100, 21));
    // [96, 206) x [45, 76), halved [48, 103) x [22, 38), grown by 5
    assert_eq!(windows[1], rect(43, 17, 65, 26));
    // [40, 111) x [14, 46), halved [20, 56) x [7, 23), grown by 3
    assert_eq!(windows[2], rect(17, 4, 42, 22));
}

#[test]
fn blur_level_windows_without_passes() {
    let windows = blur_level_windows(Size { w: 10, h: 10 }, rect(-3, 2, 50, 0), whole(8), 0);
    assert_eq!(windows, vec![rect(-3, 2, 50, 0)]);
}

#[test]
fn window_outside_the_texture_samples_nothing() {
    let windows = blur_level_windows(Size { w: 100, h: 100 }, rect(500, 500, 10, 10), whole(2), 2);
    // nothing is sampled, but the pad around nothing remains
    assert_eq!(windows[1], rect(0, 0, 2, 2));
    let windows = blur_level_windows(Size { w: 0, h: 0 }, rect(0, 0, 10, 10), whole(2), 1);
    assert!(windows[1].is_empty());
}

#[test]
fn levels_vanish_at_the_deepest_scale() {
    let windows = blur_level_windows(Size { w: 4096, h: 4096 }, rect(0, 0, 64, 64), whole(1), 31);
    assert_eq!(windows.len(), 32);
    assert!(windows[31].is_empty());
}

#[test]
fn windows_agree_with_floating_point() {
    let tex_size = Size { w: 1933, h: 477 };
    for params in blur_params() {
        let offset = params.offset.num as f64 / params.offset.den as f64;
        for window in [
            rect(0, 0, 10, 10),
            rect(101, 33, 200, 77),
            rect(1900, 470, 33, 7),
            rect(0, 0, 1933, 477),
        ] {
            let windows = blur_level_windows(tex_size, window, params.offset, params.passes);
            let mut current = window;
            assert_eq!(windows[0], current);
            for i in 0..params.passes {
                let (down, up) = float_pads(offset, i);
                let expanded = expand_rect(current, down)
                    .intersection(Rectangle::from_size(tex_size.downscale(1 << i)))
                    .unwrap_or_default();
                current = expand_rect(halve_rect(expanded), up)
                    .intersection(Rectangle::from_size(tex_size.downscale(1 << (i + 1))))
                    .unwrap_or_default();
                assert_eq!(windows[i + 1], current);
            }
        }
    }
}

#[test]
fn doubled_window_covers_the_one_above() {
    let tex_size = Size { w: 1001, h: 333 };
    let windows = blur_level_windows(tex_size, rect(7, 300, 990, 33), whole(5), 3);
    for i in 0..3 {
        let (above, below) = (windows[i], windows[i + 1]);
        assert!(2 * below.loc.x <= above.loc.x);
        assert!(2 * below.loc.y <= above.loc.y);
        assert!(above.loc.x + above.size.w <= 2 * (below.loc.x + below.size.w) + 1);
        assert!(above.loc.y + above.size.h <= 2 * (below.loc.y + below.size.h) + 1);
    }
}

#[test]
fn expand_rect_grows_every_side() {
    assert_eq!(expand_rect(rect(10, 20, 30, 40), 3), rect(7, 17, 36, 46));
    assert_eq!(expand_rect(rect(1, 2, 0, 0), 0), rect(1, 2, 0, 0));
}

#[test]
fn expand_rect_saturates() {
    assert_eq!(
        expand_rect(rect(i32::MIN, i32::MIN + 1, i32::MAX, i32::MAX - 1), 2),
        rect(i32::MIN, i32::MIN, i32::MAX, i32::MAX)
    );
}

#[test]
fn halve_rect_rounds_outwards() {
    assert_eq!(halve_rect(rect(4, 6, 8, 10)), rect(2, 3, 4, 5));
    assert_eq!(halve_rect(rect(5, 7, 8, 10)), rect(2, 3, 5, 6));
    assert_eq!(halve_rect(rect(0, 0, 0, 1)), rect(0, 0, 0, 1));
    // towards zero
    assert_eq!(halve_rect(rect(-5, -4, 3, 8)), rect(-2, -2, 2, 4));
}

#[test]
fn windows_of_the_widest_texture() {
    let tex_size = Size { w: i32::MAX, h: 100 };
    let windows = blur_level_windows(tex_size, rect(10, 10, 20, 20), whole(8), 1);
    assert_eq!(windows[1], rect(0, 0, 23, 23));
    let end = i32::MAX - 40;
    let windows = blur_level_windows(tex_size, rect(end, 10, 20, 20), whole(8), 1);
    assert_eq!(windows[1], rect(end / 2 - 7, 0, 25, 23));
}

#[test]
fn windows_of_the_whole_texture_are_the_levels() {
    for tex_size in [Size { w: 1933, h: 477 }, Size { w: i32::MAX - 1, h: 100 }] {
        let whole_texture = Rectangle::from_size(tex_size);
        let windows = blur_level_windows(tex_size, whole_texture, whole(8), 4);
        for (i, w) in windows.iter().enumerate() {
            assert_eq!(*w, Rectangle::from_size(tex_size.downscale(1 << i)));
        }
    }
}

#[test]
fn windows_reach_as_far_as_is_sampled_on_the_way_up() {
    let tex_size = Size { w: 1001, h: 333 };
    let windows = blur_level_windows(tex_size, rect(301, 100, 50, 77), whole(8), 3);
    for (i, pad) in [5, 3, 2].into_iter().enumerate() {
        let (above, below) = (windows[i], windows[i + 1]);
        let size = tex_size.downscale(1 << (i + 1));
        assert!(below.loc.x <= (above.loc.x / 2 - pad).max(0));
        assert!(below.loc.y <= (above.loc.y / 2 - pad).max(0));
        let right = (above.loc.x + above.size.w + 1) / 2 + pad;
        assert!(below.loc.x + below.size.w >= right.min(size.w));
        let bottom = (above.loc.y + above.size.h + 1) / 2 + pad;
        assert!(below.loc.y + below.size.h >= bottom.min(size.h));
    }
}
