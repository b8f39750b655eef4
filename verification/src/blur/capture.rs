//! Capturing the backdrop of an element.

use crate::blur::damage::{capture_window, damage_capture_window, lemma_capture_window_is_part};
use crate::blur::element::{moved, BlurElement};
use crate::blur::offset::BlurOffset;
use crate::blur::params::capture_margin;
use crate::blur::passes::{blur_passes, render_blur, BlurPass};
use crate::blur::windows::window_fits;
use crate::geometry::{saturating_add, Point, Rectangle, Size};
use crate::transform::{lemma_inverted_undoes, Transform};
use vstd::prelude::*;

verus! {

/// A texture that is kept from one frame to the next.
#[derive(Clone, Copy, Debug, PartialEq, Eq, Structural)]
pub struct CachedTexture {
    pub size: Size,
    /// The texture belongs to the renderer that is in use.
    pub usable: bool,
}

/// The textures that are kept for an element, if they have been created.
#[derive(Clone, Copy, Debug)]
pub struct TextureCache {
    /// The texture that holds the blurred backdrop.
    pub texture: Option<CachedTexture>,
    /// The texture that the passes alternate with.
    pub off_texture: Option<CachedTexture>,
}

/// The texture is of the size `tex_size` and usable.
pub open spec fn entry_matches(entry: Option<CachedTexture>, tex_size: Size) -> bool {
    entry matches Some(texture) && texture.size == tex_size && texture.usable
}

impl TextureCache {
    /// Both textures are of the size `tex_size` and usable.
    pub open spec fn reusable(self, tex_size: Size) -> bool {
        entry_matches(self.texture, tex_size) && entry_matches(self.off_texture, tex_size)
    }

    /// The cache once the textures that `plan` asks for have been created.
    pub open spec fn after(self, plan: CapturePlan, tex_size: Size) -> TextureCache {
        let created = Some(CachedTexture { size: tex_size, usable: true });
        TextureCache {
            texture: if plan.create_texture {
                created
            } else {
                self.texture
            },
            off_texture: if plan.create_off_texture {
                created
            } else {
                self.off_texture
            },
        }
    }
}

/// How the backdrop gets from the active framebuffer to a texture.
#[derive(Clone, Copy, Debug, PartialEq, Eq, Structural)]
pub enum BlitPlan {
    /// Copy `from` of the framebuffer to `to` of the texture.
    Direct { from: Rectangle, to: Rectangle },
    /// Copy `from` of the framebuffer to all of a temporary texture of the
    /// same size, and draw that with `transform` to `to` of the texture,
    /// restricted to `damage`.
    Transformed { from: Rectangle, to: Rectangle, damage: Rectangle, transform: Transform },
}

/// What to do to capture and blur a backdrop, in this order.
#[derive(Debug)]
pub struct CapturePlan {
    /// Create the texture of the cache anew.
    pub create_texture: bool,
    /// Create the off-texture of the cache anew.
    pub create_off_texture: bool,
    /// Copy the backdrop to the texture.
    pub blit: BlitPlan,
    /// Blur the texture.
    pub passes: Vec<BlurPass>,
}

/// The frame that an element is captured from.
#[derive(Clone, Copy, Debug)]
pub struct CaptureFrame {
    /// The size of the framebuffer.
    pub output_size: Size,
    /// The transform of the output.
    pub transform: Transform,
    /// The part of the texture that the element covers, in whole pixels.
    pub src: Rectangle,
    /// The part of the output that the element covers.
    pub dst: Rectangle,
    /// The size of the textures of the element.
    pub tex_size: Size,
}

impl CaptureFrame {
    /// The captured part can be found in the framebuffer.
    pub open spec fn wf(self) -> bool {
        &&& self.tex_size.wf()
        &&& self.transform.rect_fits(self.dst, self.output_size)
    }
}

/// How `dst` gets from the active framebuffer to `region` of a texture, or, if
/// the output is transformed, to `src` of it. In the framebuffer `dst` lies
/// where the transform of the output leads it. The inverted transform undoes
/// that.
pub open spec fn blit_plan(
    src: Rectangle,
    dst: Rectangle,
    transform: Transform,
    region: Rectangle,
    output_size: Size,
) -> BlitPlan {
    if transform == Transform::Normal {
        BlitPlan::Direct { from: dst, to: region }
    } else {
        BlitPlan::Transformed {
            from: transform.transformed_rect(dst, output_size),
            to: src,
            damage: Rectangle::of_size(dst.size),
            transform: transform.inverted(),
        }
    }
}

/// `plan` captures the whole backdrop, creating the textures that do not fit.
pub open spec fn captures_all(
    plan: CapturePlan,
    cache: TextureCache,
    frame: CaptureFrame,
    offset: BlurOffset,
    passes: int,
) -> bool {
    &&& plan.create_texture == !entry_matches(cache.texture, frame.tex_size)
    &&& plan.create_off_texture == !entry_matches(cache.off_texture, frame.tex_size)
    &&& plan.blit == blit_plan(
        frame.src,
        frame.dst,
        frame.transform,
        Rectangle::of_size(frame.tex_size),
        frame.output_size,
    )
    &&& plan.passes@ == blur_passes(frame.tex_size, None, offset, passes)
}

/// `plan` captures `window` of the backdrop, keeping the textures.
pub open spec fn captures_window(
    plan: CapturePlan,
    frame: CaptureFrame,
    window: Rectangle,
    offset: BlurOffset,
    passes: int,
) -> bool {
    &&& !plan.create_texture
    &&& !plan.create_off_texture
    &&& plan.blit == BlitPlan::Direct {
        from: moved(Rectangle { loc: frame.dst.loc, size: window.size }, window.loc),
        to: window,
    }
    &&& plan.passes@ == blur_passes(frame.tex_size, Some(window), offset, passes)
}

/// A part of the backdrop can be captured by itself: the output is not
/// transformed, and the textures hold the rest of it.
pub open spec fn partial_possible(cache: TextureCache, frame: CaptureFrame) -> bool {
    frame.transform == Transform::Normal && cache.reusable(frame.tex_size)
}

/// `plan` captures the backdrop of an element after `damage`.
pub open spec fn captures_after(
    plan: CapturePlan,
    cache: TextureCache,
    frame: CaptureFrame,
    damage: Seq<Rectangle>,
    offset: BlurOffset,
    passes: int,
) -> bool {
    match capture_window(damage, frame.dst, frame.tex_size, capture_margin(passes, offset)) {
        Some(window) if partial_possible(cache, frame) => captures_window(
            plan,
            frame,
            window,
            offset,
            passes,
        ),
        _ => captures_all(plan, cache, frame, offset, passes),
    }
}

/// Whether a texture is of the size `tex_size` and usable.
fn is_match(entry: &Option<CachedTexture>, tex_size: Size) -> (r: bool)
    ensures
        r == entry_matches(*entry, tex_size),
{
    match entry {
        Some(texture) => texture.size == tex_size && texture.usable,
        None => false,
    }
}

/// Whether the textures can be used again for a backdrop of `tex_size`.
pub fn blur_textures_reusable(cache: &TextureCache, tex_size: Size) -> (r: bool)
    ensures
        r == cache.reusable(tex_size),
{
    is_match(&cache.texture, tex_size) && is_match(&cache.off_texture, tex_size)
}

/// How `dst` gets from the active framebuffer of the size `output_size` to
/// `region` of a texture, or, if the output is transformed, to `src` of it.
pub fn blit_from_active_fb(
    src: Rectangle,
    dst: Rectangle,
    transform: Transform,
    region: Rectangle,
    output_size: Size,
) -> (r: BlitPlan)
    requires
        transform.rect_fits(dst, output_size),
    ensures
        r == blit_plan(src, dst, transform, region, output_size),
{
    if transform != Transform::Normal {
        BlitPlan::Transformed {
            from: transform.transform_rect_in(dst, output_size),
            to: src,
            damage: Rectangle::from_size(dst.size),
            transform: transform.invert(),
        }
    } else {
        BlitPlan::Direct { from: dst, to: region }
    }
}

impl BlurElement {
    /// How to capture the whole backdrop.
    pub fn capture_backdrop(&self, cache: &TextureCache, frame: &CaptureFrame) -> (plan:
        CapturePlan)
        requires
            self.wf(),
            frame.wf(),
        ensures
            captures_all(plan, *cache, *frame, self.offset, self.passes as int),
    {
        CapturePlan {
            create_texture: !is_match(&cache.texture, frame.tex_size),
            create_off_texture: !is_match(&cache.off_texture, frame.tex_size),
            blit: blit_from_active_fb(
                frame.src,
                frame.dst,
                frame.transform,
                Rectangle::from_size(frame.tex_size),
                frame.output_size,
            ),
            passes: render_blur(frame.tex_size, self.offset, self.passes, None),
        }
    }

    /// How far around damage the blur spreads.
    pub fn capture_margin(&self) -> (r: i32)
        requires
            self.wf(),
        ensures
            r == capture_margin(self.passes as int, self.offset),
            0 <= r <= 150,
    {
        let num: u64 = self.offset.num as u64;
        let den: u64 = self.offset.den as u64;
        let passes: u64 = self.passes as u64;
        proof {
            assert(0 <= passes * num <= 4 * 0xffff_ffff) by (nonlinear_arith)
                requires
                    0 <= passes <= 4,
                    0 <= num <= 0xffff_ffff,
            ;
        }
        ((3 * (passes * num) + (2 * den - 1)) / (2 * den)) as i32 + 4
    }

    /// What of the backdrop has to be captured again after `damage`, if that
    /// is less than all of it.
    pub fn partial_capture_window(
        &self,
        damage: &[Rectangle],
        dst: Rectangle,
        tex_size: Size,
    ) -> (r: Option<Rectangle>)
        requires
            self.wf(),
            forall|i: int| 0 <= i < damage@.len() ==> (#[trigger] damage@[i]).wf(),
            tex_size.wf(),
        ensures
            r == capture_window(
                damage@,
                dst,
                tex_size,
                capture_margin(self.passes as int, self.offset),
            ),
    {
        damage_capture_window(damage, dst, tex_size, self.capture_margin())
    }

    /// How to capture `window` of the backdrop, or all of it if it cannot be
    /// captured by itself.
    pub fn capture_backdrop_partial(
        &self,
        cache: &TextureCache,
        frame: &CaptureFrame,
        window: Rectangle,
    ) -> (plan: CapturePlan)
        requires
            self.wf(),
            frame.wf(),
            window.wf(),
            partial_possible(*cache, *frame) ==> window_fits(frame.tex_size, window, self.offset),
        ensures
            if partial_possible(*cache, *frame) {
                captures_window(plan, *frame, window, self.offset, self.passes as int)
            } else {
                captures_all(plan, *cache, *frame, self.offset, self.passes as int)
            },
    {
        let reusable: bool = frame.transform == Transform::Normal && blur_textures_reusable(
            cache,
            frame.tex_size,
        );
        if !reusable {
            return self.capture_backdrop(cache, frame);
        }
        let dst_sub: Rectangle = Rectangle {
            loc: Point {
                x: saturating_add(frame.dst.loc.x, window.loc.x),
                y: saturating_add(frame.dst.loc.y, window.loc.y),
            },
            size: window.size,
        };
        CapturePlan {
            create_texture: false,
            create_off_texture: false,
            blit: blit_from_active_fb(
                frame.src,
                dst_sub,
                Transform::Normal,
                window,
                frame.output_size,
            ),
            passes: render_blur(frame.tex_size, self.offset, self.passes, Some(window)),
        }
    }

    /// How to capture the backdrop after `damage`: only the window that the
    /// damage affects, if there is one that can be captured by itself.
    pub fn capture_framebuffer(
        &self,
        cache: &TextureCache,
        frame: &CaptureFrame,
        damage: &[Rectangle],
    ) -> (plan: CapturePlan)
        requires
            self.wf(),
            frame.wf(),
            forall|i: int| 0 <= i < damage@.len() ==> (#[trigger] damage@[i]).wf(),
            partial_possible(*cache, *frame) ==> (capture_window(
                damage@,
                frame.dst,
                frame.tex_size,
                capture_margin(self.passes as int, self.offset),
            ) matches Some(window) ==> window_fits(frame.tex_size, window, self.offset)),
        ensures
            match capture_window(
                damage@,
                frame.dst,
                frame.tex_size,
                capture_margin(self.passes as int, self.offset),
            ) {
                Some(window) if partial_possible(*cache, *frame) => captures_window(
                    plan,
                    *frame,
                    window,
                    self.offset,
                    self.passes as int,
                ),
                _ => captures_all(plan, *cache, *frame, self.offset, self.passes as int),
            },
            captures_after(plan, *cache, *frame, damage@, self.offset, self.passes as int),
    {
        match self.partial_capture_window(damage, frame.dst, frame.tex_size) {
            Some(window) => {
                proof {
                    lemma_capture_window_is_part(
                        damage@,
                        frame.dst,
                        frame.tex_size,
                        capture_margin(self.passes as int, self.offset),
                    );
                }
                self.capture_backdrop_partial(cache, frame, window)
            },
            None => self.capture_backdrop(cache, frame),
        }
    }
}

/// Once a capture of the whole backdrop has been carried out, the textures can
/// be used again for a backdrop of the same size.
pub proof fn lemma_capture_makes_reusable(
    plan: CapturePlan,
    cache: TextureCache,
    frame: CaptureFrame,
    offset: BlurOffset,
    passes: int,
)
    requires
        captures_all(plan, cache, frame, offset, passes),
    ensures
        cache.after(plan, frame.tex_size).reusable(frame.tex_size),
{
}

/// A capture of a window keeps the textures, so that the next one can be
/// partial too.
pub proof fn lemma_partial_capture_keeps_textures(
    plan: CapturePlan,
    cache: TextureCache,
    frame: CaptureFrame,
    window: Rectangle,
    offset: BlurOffset,
    passes: int,
)
    requires
        partial_possible(cache, frame),
        captures_window(plan, frame, window, offset, passes),
    ensures
        cache.after(plan, frame.tex_size) == cache,
        partial_possible(cache.after(plan, frame.tex_size), frame),
{
}

/// A capture of the whole backdrop creates no texture that could be used
/// again.
pub proof fn lemma_reusable_textures_kept(
    plan: CapturePlan,
    cache: TextureCache,
    frame: CaptureFrame,
    offset: BlurOffset,
    passes: int,
)
    requires
        captures_all(plan, cache, frame, offset, passes),
        cache.reusable(frame.tex_size),
    ensures
        cache.after(plan, frame.tex_size) == cache,
{
}

/// A capture of the whole backdrop keeps a texture exactly if it is there, has
/// the width and the height of the backdrop and belongs to the renderer that is
/// in use. Any other is created anew.
pub proof fn lemma_textures_kept_if_they_fit(
    plan: CapturePlan,
    cache: TextureCache,
    frame: CaptureFrame,
    offset: BlurOffset,
    passes: int,
)
    requires
        captures_all(plan, cache, frame, offset, passes),
    ensures
        !plan.create_texture <==> (cache.texture matches Some(texture) && {
            &&& texture.size.w == frame.tex_size.w
            &&& texture.size.h == frame.tex_size.h
            &&& texture.usable
        }),
        !plan.create_off_texture <==> (cache.off_texture matches Some(texture) && {
            &&& texture.size.w == frame.tex_size.w
            &&& texture.size.h == frame.tex_size.h
            &&& texture.usable
        }),
{
}

/// After any capture there are two textures, both of exactly the size of the
/// backdrop, and both belong to the renderer that is in use.
pub proof fn lemma_textures_fit_after_capture(
    plan: CapturePlan,
    cache: TextureCache,
    frame: CaptureFrame,
    window: Rectangle,
    offset: BlurOffset,
    passes: int,
)
    requires
        ({
            ||| captures_all(plan, cache, frame, offset, passes)
            ||| partial_possible(cache, frame) && captures_window(
                plan,
                frame,
                window,
                offset,
                passes,
            )
        }),
    ensures
        ({
            let texture = if plan.create_texture {
                Some(CachedTexture { size: frame.tex_size, usable: true })
            } else {
                cache.texture
            };
            let off_texture = if plan.create_off_texture {
                Some(CachedTexture { size: frame.tex_size, usable: true })
            } else {
                cache.off_texture
            };
            &&& texture matches Some(t) && t.usable && t.size.w == frame.tex_size.w && t.size.h
                == frame.tex_size.h
            &&& off_texture matches Some(t) && t.usable && t.size.w == frame.tex_size.w
                && t.size.h == frame.tex_size.h
            &&& cache.after(plan, frame.tex_size).texture == texture
            &&& cache.after(plan, frame.tex_size).off_texture == off_texture
        }),
{
}

/// A part of the backdrop is captured by itself only on an output that is not
/// transformed, and only if both textures fit. Then it is.
pub proof fn lemma_partial_needs_fitting_textures(cache: TextureCache, frame: CaptureFrame)
    ensures
        partial_possible(cache, frame) <==> {
            &&& frame.transform == Transform::Normal
            &&& cache.texture matches Some(t) && t.usable && t.size.w == frame.tex_size.w
                && t.size.h == frame.tex_size.h
            &&& cache.off_texture matches Some(t) && t.usable && t.size.w == frame.tex_size.w
                && t.size.h == frame.tex_size.h
        },
        cache.reusable(frame.tex_size) <==> {
            &&& cache.texture matches Some(t) && t.usable && t.size.w == frame.tex_size.w
                && t.size.h == frame.tex_size.h
            &&& cache.off_texture matches Some(t) && t.usable && t.size.w == frame.tex_size.w
                && t.size.h == frame.tex_size.h
        },
{
}

/// What a capture of the whole backdrop copies: from an output that is not
/// transformed, what the element covers to all of the texture; from any other,
/// what the element covers after the transform, drawn with a transform that
/// leads from there back to what the element covers.
pub proof fn lemma_whole_backdrop_copied(
    plan: CapturePlan,
    cache: TextureCache,
    frame: CaptureFrame,
    offset: BlurOffset,
    passes: int,
)
    requires
        captures_all(plan, cache, frame, offset, passes),
        frame.transform.rect_fits(frame.dst, frame.output_size),
    ensures
        match plan.blit {
            BlitPlan::Direct { from, to } => {
                &&& frame.transform == Transform::Normal
                &&& from == frame.dst
                &&& to.loc.x == 0 && to.loc.y == 0
                &&& to.size == frame.tex_size
            },
            BlitPlan::Transformed { from, to, damage, transform } => {
                &&& frame.transform != Transform::Normal
                &&& from == frame.transform.transformed_rect(frame.dst, frame.output_size)
                &&& to == frame.src
                &&& damage.loc.x == 0 && damage.loc.y == 0
                &&& damage.size == frame.dst.size
                &&& transform == frame.transform.inverted()
                &&& frame.transform !is Flipped90 && frame.transform !is Flipped270
                    ==> transform.transformed_rect(
                    from,
                    frame.transform.transformed_size(frame.output_size),
                ) == frame.dst
            },
        },
        plan.passes@ == blur_passes(frame.tex_size, None, offset, passes),
{
    if frame.transform !is Flipped90 && frame.transform !is Flipped270 {
        lemma_inverted_undoes(frame.transform, frame.dst, frame.output_size);
    }
}

/// What a capture of a window copies: to the window of the texture, as many
/// pixels of the framebuffer, from as far within what the element covers as the
/// window lies within the texture. No texture is created, and only the window is
/// blurred.
pub proof fn lemma_window_copied(
    plan: CapturePlan,
    frame: CaptureFrame,
    window: Rectangle,
    offset: BlurOffset,
    passes: int,
)
    requires
        captures_window(plan, frame, window, offset, passes),
        i32::MIN <= frame.dst.loc.x + window.loc.x <= i32::MAX,
        i32::MIN <= frame.dst.loc.y + window.loc.y <= i32::MAX,
    ensures
        !plan.create_texture,
        !plan.create_off_texture,
        plan.blit matches BlitPlan::Direct { from, to } && {
            &&& to == window
            &&& from.size == window.size
            &&& from.loc.x - frame.dst.loc.x == window.loc.x
            &&& from.loc.y - frame.dst.loc.y == window.loc.y
        },
        plan.passes@ == blur_passes(frame.tex_size, Some(window), offset, passes),
{
}

/// Only the window that damage affects is captured exactly if there is such a
/// window, the output is not transformed, and both textures fit. In any other
/// case the whole backdrop is, and in either case both textures fit afterwards.
pub proof fn lemma_capture_as_little_as_possible(
    plan: CapturePlan,
    cache: TextureCache,
    frame: CaptureFrame,
    damage: Seq<Rectangle>,
    offset: BlurOffset,
    passes: int,
)
    requires
        captures_after(plan, cache, frame, damage, offset, passes),
    ensures
        ({
            let margin = capture_margin(passes, offset);
            let window = capture_window(damage, frame.dst, frame.tex_size, margin);
            let fits = |entry: Option<CachedTexture>|
                entry matches Some(t) && t.usable && t.size.w == frame.tex_size.w && t.size.h
                    == frame.tex_size.h;
            let partial = {
                &&& window is Some
                &&& frame.transform == Transform::Normal
                &&& fits(cache.texture)
                &&& fits(cache.off_texture)
            };
            &&& partial ==> {
                &&& captures_window(plan, frame, window->Some_0, offset, passes)
                &&& !plan.create_texture && !plan.create_off_texture
                &&& plan.blit matches BlitPlan::Direct { to, .. } && to == window->Some_0
                &&& plan.passes@ == blur_passes(frame.tex_size, window, offset, passes)
            }
            &&& !partial ==> {
                &&& captures_all(plan, cache, frame, offset, passes)
                &&& plan.create_texture <==> !fits(cache.texture)
                &&& plan.create_off_texture <==> !fits(cache.off_texture)
                &&& plan.passes@ == blur_passes(frame.tex_size, None, offset, passes)
            }
            &&& fits(cache.after(plan, frame.tex_size).texture)
            &&& fits(cache.after(plan, frame.tex_size).off_texture)
        }),
{
}

} // verus!
