use cosmic_comp::blur::offset::BlurOffset;
use cosmic_comp::blur::passes::{render_blur, BlurPass, BlurShader, BlurTexture};
use cosmic_comp::blur::passes::BlurShader::{Down, Up};
use cosmic_comp::blur::passes::BlurTexture::{Main, Off};
use cosmic_comp::blur::windows::blur_level_windows;
use cosmic_comp::geometry::{Point, Rectangle, Size};

fn rect(x: i32, y: i32, w: i32, h: i32) -> Rectangle {
    Rectangle {
        loc: Point { x, y },
        size: Size { w, h },
    }
}

const OFFSET: BlurOffset = BlurOffset { num: 8, den: 1 };

#[test]
fn passes_over_the_whole_texture() {
    let passes = render_blur(Size { w: 101, h: 50 }, OFFSET, 2, None);
    let pass = |source, target, shader, level, w, h, dw, dh| BlurPass {
        source,
        target,
        shader,
        level,
        level_size: Size { w, h },
        src_rect: rect(0, 0, w, h),
        dst_rect: rect(0, 0, dw, dh),
    };
    assert_eq!(
        passes,
        vec![
            pass(Main, Off, Down, 0, 101, 50, 50, 25),
            pass(Off, Main, Down, 1, 50, 25, 25, 12),
            pass(Main, Off, Up, 2, 25, 12, 50, 25),
            pass(Off, Main, Up, 1, 50, 25, 101, 50),
        ]
    );
}

#[test]
fn passes_over_a_window() {
    let tex_size = Size { w: 1920, h: 1080 };
    let window = rect(100, 200, 300, 400);
    let windows = blur_level_windows(tex_size, window, OFFSET, 4);
    let passes = render_blur(tex_size, OFFSET, 4, Some(window));
    assert_eq!(passes.len(), 8);
    for i in 0..4 {
        assert_eq!(passes[i].shader, BlurShader::Down);
        assert_eq!(passes[i].level, i);
        assert_eq!(passes[i].src_rect, windows[i]);
        assert_eq!(passes[i].dst_rect, windows[i + 1]);
        assert_eq!(passes[4 + i].shader, BlurShader::Up);
        assert_eq!(passes[4 + i].level, 4 - i);
        assert_eq!(passes[4 + i].level_size, tex_size.downscale(1 << (4 - i)));
        assert_eq!(passes[4 + i].src_rect, windows[4 - i]);
        assert_eq!(passes[4 + i].dst_rect, windows[3 - i]);
    }
}

#[test]
fn passes_chain_and_end_in_the_main_texture() {
    let window = rect(10, 10, 30, 30);
    for count in 1..=5 {
        for window in [None, Some(window)] {
            let passes = render_blur(Size { w: 640, h: 480 }, OFFSET, count, window);
            assert_eq!(passes.len(), 2 * count);
            assert_eq!(passes[0].source, BlurTexture::Main);
            for pair in passes.windows(2) {
                assert_eq!(pair[1].source, pair[0].target);
                assert_eq!(pair[1].src_rect, pair[0].dst_rect);
                assert_ne!(pair[0].source, pair[0].target);
            }
            let last = passes[passes.len() - 1];
            assert_eq!(last.target, BlurTexture::Main);
            assert_eq!(last.dst_rect, window.unwrap_or(rect(0, 0, 640, 480)));
        }
    }
}

#[test]
fn up_passes_retrace_down_passes() {
    let passes = render_blur(Size { w: 640, h: 480 }, OFFSET, 3, Some(rect(3, 5, 100, 77)));
    for i in 0..3 {
        assert_eq!(passes[5 - i].src_rect, passes[i].dst_rect);
        assert_eq!(passes[5 - i].dst_rect, passes[i].src_rect);
    }
}

#[test]
fn no_passes() {
    assert!(render_blur(Size { w: 640, h: 480 }, OFFSET, 0, None).is_empty());
}

#[test]
fn passes_of_the_whole_texture_need_no_window() {
    let tex_size = Size { w: 641, h: 479 };
    assert_eq!(
        render_blur(tex_size, OFFSET, 4, Some(Rectangle::from_size(tex_size))),
        render_blur(tex_size, OFFSET, 4, None)
    );
}
