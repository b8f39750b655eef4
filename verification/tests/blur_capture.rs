use cosmic_comp::blur::capture::{
    blit_from_active_fb, blur_textures_reusable, BlitPlan, CachedTexture, CaptureFrame,
    TextureCache,
};
use cosmic_comp::blur::element::{BlurElement, BlurRequest, BlurState};
use cosmic_comp::blur::params::extended_radius;
use cosmic_comp::blur::passes::render_blur;
use cosmic_comp::float::{FloatBits, FloatSize};
use cosmic_comp::geometry::{Point, Rectangle, Size};
use cosmic_comp::transform::Transform;

fn rect(x: i32, y: i32, w: i32, h: i32) -> Rectangle {
    Rectangle {
        loc: Point { x, y },
        size: Size { w, h },
    }
}

fn element(strength: usize) -> BlurElement {
    let one = FloatBits {
        bits: 1f64.to_bits(),
    };
    let mut state = BlurState::new(1);
    let request = BlurRequest {
        renderer_id: 1,
        size: FloatSize { w: one, h: one },
        src: FloatSize { w: one, h: one },
        extended_offset: Point { x: 0, y: 0 },
        strength,
    };
    BlurElement::from_state(&mut state, Size { w: 1, h: 1 }, request).unwrap()
}

const TEX_SIZE: Size = Size { w: 1000, h: 200 };

fn frame(transform: Transform) -> CaptureFrame {
    CaptureFrame {
        output_size: Size { w: 1920, h: 1080 },
        transform,
        src: rect(0, 0, 1000, 200),
        dst: rect(50, 60, 1000, 200),
        tex_size: TEX_SIZE,
    }
}

fn texture(size: Size, usable: bool) -> Option<CachedTexture> {
    Some(CachedTexture { size, usable })
}

fn filled() -> TextureCache {
    TextureCache {
        texture: texture(TEX_SIZE, true),
        off_texture: texture(TEX_SIZE, true),
    }
}

#[test]
fn margins_agree_with_floating_point() {
    for strength in 1..=14 {
        let element = element(strength);
        let offset = element.offset.num as f64 / element.offset.den as f64;
        let margin = (element.passes as f64 * offset * 1.5).ceil() as i32 + 4;
        assert_eq!(element.capture_margin(), margin);
    }
    assert_eq!(element(1).capture_margin(), 7);
    assert_eq!(element(14).capture_margin(), 52);
}

#[test]
fn textures_are_reusable_if_both_fit() {
    assert!(blur_textures_reusable(&filled(), TEX_SIZE));
    let other = Size { w: 1001, h: 200 };
    assert!(!blur_textures_reusable(&filled(), other));
    for bad in [None, texture(other, true), texture(TEX_SIZE, false)] {
        let cache = TextureCache { texture: bad, ..filled() };
        assert!(!blur_textures_reusable(&cache, TEX_SIZE));
        let cache = TextureCache { off_texture: bad, ..filled() };
        assert!(!blur_textures_reusable(&cache, TEX_SIZE));
    }
}

#[test]
fn direct_blit_without_transform() {
    assert_eq!(
        blit_from_active_fb(
            rect(1, 2, 3, 4),
            rect(5, 6, 7, 8),
            Transform::Normal,
            rect(9, 10, 11, 12),
            Size { w: 100, h: 60 }
        ),
        BlitPlan::Direct {
            from: rect(5, 6, 7, 8),
            to: rect(9, 10, 11, 12)
        }
    );
}

#[test]
fn transformed_blit_draws_back() {
    assert_eq!(
        blit_from_active_fb(
            rect(1, 2, 3, 4),
            rect(10, 20, 5, 7),
            Transform::_90,
            rect(9, 10, 11, 12),
            Size { w: 100, h: 60 }
        ),
        BlitPlan::Transformed {
            from: rect(33, 10, 7, 5),
            to: rect(1, 2, 3, 4),
            damage: rect(0, 0, 5, 7),
            transform: Transform::_270
        }
    );
}

#[test]
fn full_capture_creates_what_does_not_fit() {
    let element = element(4);
    let frame = frame(Transform::Normal);
    for (texture_entry, off_entry, create, create_off) in [
        (None, None, true, true),
        (texture(TEX_SIZE, true), None, false, true),
        (texture(TEX_SIZE, false), texture(TEX_SIZE, true), true, false),
        (texture(Size { w: 1, h: 1 }, true), texture(TEX_SIZE, true), true, false),
        (texture(TEX_SIZE, true), texture(TEX_SIZE, true), false, false),
    ] {
        let cache = TextureCache {
            texture: texture_entry,
            off_texture: off_entry,
        };
        let plan = element.capture_backdrop(&cache, &frame);
        assert_eq!(plan.create_texture, create);
        assert_eq!(plan.create_off_texture, create_off);
        assert_eq!(
            plan.blit,
            BlitPlan::Direct {
                from: rect(50, 60, 1000, 200),
                to: rect(0, 0, 1000, 200)
            }
        );
        assert_eq!(
            plan.passes,
            render_blur(TEX_SIZE, element.offset, element.passes, None)
        );
    }
}

#[test]
fn partial_capture_of_a_window() {
    let element = element(4);
    let window = rect(100, 20, 50, 60);
    let plan = element.capture_backdrop_partial(&filled(), &frame(Transform::Normal), window);
    assert!(!plan.create_texture && !plan.create_off_texture);
    assert_eq!(
        plan.blit,
        BlitPlan::Direct {
            from: rect(150, 80, 50, 60),
            to: window
        }
    );
    assert_eq!(
        plan.passes,
        render_blur(TEX_SIZE, element.offset, element.passes, Some(window))
    );
}

#[test]
fn partial_capture_falls_back_to_a_full_one() {
    let element = element(4);
    let window = rect(100, 20, 50, 60);
    let all = render_blur(TEX_SIZE, element.offset, element.passes, None);
    let plan = element.capture_backdrop_partial(&filled(), &frame(Transform::_180), window);
    assert_eq!(
        plan.blit,
        BlitPlan::Transformed {
            from: rect(870, 820, 1000, 200),
            to: rect(0, 0, 1000, 200),
            damage: rect(0, 0, 1000, 200),
            transform: Transform::_180
        }
    );
    assert_eq!(plan.passes, all);
    let empty = TextureCache {
        texture: None,
        off_texture: None,
    };
    let plan = element.capture_backdrop_partial(&empty, &frame(Transform::Normal), window);
    assert!(plan.create_texture && plan.create_off_texture);
    assert_eq!(plan.passes, all);
}

#[test]
fn framebuffer_capture_follows_the_damage() {
    let element = element(1);
    let frame = frame(Transform::Normal);
    let damage = [rect(400, 80, 100, 40)];
    assert_eq!(
        element.partial_capture_window(&damage, frame.dst, frame.tex_size),
        Some(rect(393, 73, 114, 54))
    );
    let plan = element.capture_framebuffer(&filled(), &frame, &damage);
    assert_eq!(
        plan.blit,
        BlitPlan::Direct {
            from: rect(443, 133, 114, 54),
            to: rect(393, 73, 114, 54)
        }
    );
    for damage in [vec![], vec![rect(0, 0, 1000, 200)]] {
        let plan = element.capture_framebuffer(&filled(), &frame, &damage);
        assert_eq!(
            plan.blit,
            BlitPlan::Direct {
                from: rect(50, 60, 1000, 200),
                to: rect(0, 0, 1000, 200)
            }
        );
    }
}

#[test]
fn margin_stays_within_the_captured_surroundings() {
    for strength in 1..20 {
        assert!(element(strength).capture_margin() <= extended_radius(strength));
    }
}

#[test]
fn captured_textures_can_be_used_again() {
    let element = element(4);
    let frame = frame(Transform::Normal);
    let mut cache = TextureCache {
        texture: texture(TEX_SIZE, false),
        off_texture: None,
    };
    let plan = element.capture_backdrop(&cache, &frame);
    if plan.create_texture {
        cache.texture = texture(TEX_SIZE, true);
    }
    if plan.create_off_texture {
        cache.off_texture = texture(TEX_SIZE, true);
    }
    assert!(blur_textures_reusable(&cache, TEX_SIZE));
    let again = element.capture_backdrop(&cache, &frame);
    assert!(!again.create_texture && !again.create_off_texture);
}
