//! The render passes that blur a texture.

use crate::blur::offset::BlurOffset;
use crate::blur::windows::{
    blur_level_windows, lemma_first_level, lemma_level_size_halves, lemma_level_size_scales,
    lemma_levels_above_not_empty, lemma_scale_fits, lemma_whole_texture_window,
    lemma_windows_stay_within_levels, level_size, level_window, window_fits, MAX_PASSES,
};
use crate::geometry::{Rectangle, Size};
use vstd::arithmetic::power2::{lemma2_to64, lemma_pow2_pos, lemma_pow2_unfold, pow2};
use vstd::prelude::*;

verus! {

/// The shader that a pass is rendered with.
#[derive(Clone, Copy, Debug, PartialEq, Eq, Structural)]
pub enum BlurShader {
    /// Samples a level to render the one below it, of half the resolution.
    Down,
    /// Samples a level to render the one above it, of twice the resolution.
    Up,
}

/// One of the two textures that the passes alternate between.
#[derive(Clone, Copy, Debug, PartialEq, Eq, Structural)]
pub enum BlurTexture {
    /// The texture that holds the captured backdrop, and the result.
    Main,
    /// The texture beside it.
    Off,
}

/// A render pass.
#[derive(Clone, Copy, Debug, PartialEq, Eq, Structural)]
pub struct BlurPass {
    /// The texture that is sampled.
    pub source: BlurTexture,
    /// The texture that is rendered to.
    pub target: BlurTexture,
    pub shader: BlurShader,
    /// The level that is sampled. The shader samples at the distance of the
    /// blur offset divided by two to the power of this.
    pub level: usize,
    /// The size of the level that is sampled.
    pub level_size: Size,
    /// The part of the source that is sampled.
    pub src_rect: Rectangle,
    /// The part of the target that is rendered.
    pub dst_rect: Rectangle,
}

/// The part of `level` that takes part in blurring `window` of a texture, or
/// all of the texture.
pub open spec fn level_rect(
    tex_size: Size,
    window: Option<Rectangle>,
    offset: BlurOffset,
    level: nat,
) -> Rectangle {
    match window {
        Some(window) => level_window(tex_size, window, offset, level),
        None => Rectangle::of_size(level_size(tex_size, level)),
    }
}

/// The level that the pass at `index` samples: the passes lead down by
/// `passes` levels and up again.
pub open spec fn pass_level(passes: int, index: int) -> int {
    if index < passes {
        index
    } else {
        2 * passes - index
    }
}

/// The texture that the pass at `index` samples.
pub open spec fn pass_source(index: int) -> BlurTexture {
    if index % 2 == 0 {
        BlurTexture::Main
    } else {
        BlurTexture::Off
    }
}

/// The pass at `index`.
pub open spec fn blur_pass(
    tex_size: Size,
    window: Option<Rectangle>,
    offset: BlurOffset,
    passes: int,
    index: int,
) -> BlurPass {
    let level = pass_level(passes, index);
    let next_level = pass_level(passes, index + 1);
    BlurPass {
        source: pass_source(index),
        target: pass_source(index + 1),
        shader: if index < passes {
            BlurShader::Down
        } else {
            BlurShader::Up
        },
        level: level as usize,
        level_size: level_size(tex_size, level as nat),
        src_rect: level_rect(tex_size, window, offset, level as nat),
        dst_rect: level_rect(tex_size, window, offset, next_level as nat),
    }
}

/// The passes that blur `window` of a texture, or all of the texture.
pub open spec fn blur_passes(
    tex_size: Size,
    window: Option<Rectangle>,
    offset: BlurOffset,
    passes: int,
) -> Seq<BlurPass> {
    Seq::new(
        (2 * passes) as nat,
        |index: int| blur_pass(tex_size, window, offset, passes, index),
    )
}

/// `window` of a texture can be blurred.
pub open spec fn blur_fits(
    tex_size: Size,
    window: Option<Rectangle>,
    offset: BlurOffset,
    passes: int,
) -> bool {
    &&& tex_size.wf()
    &&& 0 <= passes <= MAX_PASSES
    &&& window matches Some(window) ==> {
        &&& window.wf()
        &&& offset.wf()
        &&& passes > 0 ==> window_fits(tex_size, window, offset)
    }
}

/// The sizes of all levels, from the full resolution down.
fn level_sizes(tex_size: Size, passes: usize) -> (sizes: Vec<Size>)
    requires
        tex_size.wf(),
        passes <= MAX_PASSES,
    ensures
        sizes@ == Seq::new((passes + 1) as nat, |level: int| level_size(tex_size, level as nat)),
{
    let mut sizes: Vec<Size> = Vec::with_capacity(passes + 1);
    let mut scale: i64 = 1;
    proof {
        lemma2_to64();
    }
    sizes.push(tex_size.downscale(scale));
    let mut level: usize = 0;
    while level < passes
        invariant
            tex_size.wf(),
            level <= passes <= MAX_PASSES,
            scale == pow2(level as nat),
            sizes@ == Seq::new((level + 1) as nat, |i: int| level_size(tex_size, i as nat)),
        decreases passes - level,
    {
        proof {
            lemma_pow2_unfold((level + 1) as nat);
            lemma_pow2_pos((level + 1) as nat);
            lemma_scale_fits((level + 1) as nat);
        }
        scale = scale * 2;
        sizes.push(tex_size.downscale(scale));
        level = level + 1;
    }
    sizes
}

/// The passes that blur `window` of a texture of `tex_size`, or all of the
/// texture, in the order in which they are rendered.
pub fn render_blur(
    tex_size: Size,
    offset: BlurOffset,
    passes: usize,
    window: Option<Rectangle>,
) -> (r: Vec<BlurPass>)
    requires
        blur_fits(tex_size, window, offset, passes as int),
    ensures
        r@ == blur_passes(tex_size, window, offset, passes as int),
{
    let sizes: Vec<Size> = level_sizes(tex_size, passes);
    let rects: Vec<Rectangle> = match window {
        Some(window) => blur_level_windows(tex_size, window, offset, passes),
        None => {
            let mut rects: Vec<Rectangle> = Vec::with_capacity(passes + 1);
            let mut level: usize = 0;
            while level <= passes
                invariant
                    level <= passes + 1,
                    passes <= MAX_PASSES,
                    sizes@ == Seq::new(
                        (passes + 1) as nat,
                        |i: int| level_size(tex_size, i as nat),
                    ),
                    rects@ == Seq::new(
                        level as nat,
                        |i: int| Rectangle::of_size(level_size(tex_size, i as nat)),
                    ),
                decreases passes + 1 - level,
            {
                rects.push(Rectangle::from_size(sizes[level]));
                level = level + 1;
            }
            rects
        },
    };
    assert(rects@ =~= Seq::new(
        (passes + 1) as nat,
        |i: int| level_rect(tex_size, window, offset, i as nat),
    ));
    let mut result: Vec<BlurPass> = Vec::with_capacity(2 * passes);
    let mut source: BlurTexture = BlurTexture::Main;
    let mut target: BlurTexture = BlurTexture::Off;
    let mut i: usize = 0;
    while i < passes
        invariant
            i <= passes <= MAX_PASSES,
            sizes@ == Seq::new((passes + 1) as nat, |k: int| level_size(tex_size, k as nat)),
            rects@ == Seq::new(
                (passes + 1) as nat,
                |k: int| level_rect(tex_size, window, offset, k as nat),
            ),
            source == pass_source(i as int),
            target == pass_source(i + 1),
            result@ == blur_passes(tex_size, window, offset, passes as int).take(i as int),
        decreases passes - i,
    {
        let ghost all = blur_passes(tex_size, window, offset, passes as int);
        result.push(
            BlurPass {
                source,
                target,
                shader: BlurShader::Down,
                level: i,
                level_size: sizes[i],
                src_rect: rects[i],
                dst_rect: rects[i + 1],
            },
        );
        assert(all.take(i + 1) =~= all.take(i as int).push(all[i as int]));
        let swapped: BlurTexture = source;
        source = target;
        target = swapped;
        i = i + 1;
    }
    i = 0;
    while i < passes
        invariant
            i <= passes <= MAX_PASSES,
            sizes@ == Seq::new((passes + 1) as nat, |k: int| level_size(tex_size, k as nat)),
            rects@ == Seq::new(
                (passes + 1) as nat,
                |k: int| level_rect(tex_size, window, offset, k as nat),
            ),
            source == pass_source(passes + i),
            target == pass_source(passes + i + 1),
            result@ == blur_passes(tex_size, window, offset, passes as int).take(passes + i),
        decreases passes - i,
    {
        let ghost all = blur_passes(tex_size, window, offset, passes as int);
        result.push(
            BlurPass {
                source,
                target,
                shader: BlurShader::Up,
                level: passes - i,
                level_size: sizes[passes - i],
                src_rect: rects[passes - i],
                dst_rect: rects[passes - i - 1],
            },
        );
        assert(all.take(passes + i + 1) =~= all.take(passes + i).push(all[passes + i]));
        let swapped: BlurTexture = source;
        source = target;
        target = swapped;
        i = i + 1;
    }
    assert(result@ =~= blur_passes(tex_size, window, offset, passes as int));
    result
}

/// Every pass samples what the pass before it rendered.
pub proof fn lemma_passes_chain(
    tex_size: Size,
    window: Option<Rectangle>,
    offset: BlurOffset,
    passes: int,
    index: int,
)
    requires
        0 <= index,
        index + 1 < 2 * passes,
    ensures
        ({
            let pass = blur_passes(tex_size, window, offset, passes)[index];
            let next = blur_passes(tex_size, window, offset, passes)[index + 1];
            &&& next.source == pass.target
            &&& next.src_rect == pass.dst_rect
        }),
{
}

/// The passes start from the window of the main texture and leave their
/// result there: the textures end up the right way around.
pub proof fn lemma_result_in_main_texture(
    tex_size: Size,
    window: Option<Rectangle>,
    offset: BlurOffset,
    passes: int,
)
    requires
        tex_size.wf(),
        passes > 0,
    ensures
        ({
            let all = blur_passes(tex_size, window, offset, passes);
            let blurred = match window {
                Some(window) => window,
                None => Rectangle::of_size(tex_size),
            };
            &&& all.first().source == BlurTexture::Main
            &&& all.first().src_rect == blurred
            &&& all.last().target == BlurTexture::Main
            &&& all.last().dst_rect == blurred
        }),
{
    lemma_first_level(tex_size);
}

/// No pass samples the texture that it renders to.
pub proof fn lemma_passes_do_not_sample_target(
    tex_size: Size,
    window: Option<Rectangle>,
    offset: BlurOffset,
    passes: int,
    index: int,
)
    requires
        0 <= index < 2 * passes,
    ensures
        ({
            let pass = blur_passes(tex_size, window, offset, passes)[index];
            pass.source != pass.target
        }),
{
}

/// The passes up retrace the passes down: each renders the part of a level
/// that a pass down sampled, from the part that that pass rendered.
pub proof fn lemma_passes_retrace(
    tex_size: Size,
    window: Option<Rectangle>,
    offset: BlurOffset,
    passes: int,
    index: int,
)
    requires
        0 <= index < passes,
    ensures
        ({
            let down = blur_passes(tex_size, window, offset, passes)[index];
            let up = blur_passes(tex_size, window, offset, passes)[2 * passes - 1 - index];
            &&& down.shader == BlurShader::Down
            &&& up.shader == BlurShader::Up
            &&& up.src_rect == down.dst_rect
            &&& up.dst_rect == down.src_rect
        }),
{
}

/// Blurring the window that is the whole texture takes the same passes as
/// blurring the texture without a window, as long as no level is empty.
pub proof fn lemma_whole_texture_passes(tex_size: Size, offset: BlurOffset, passes: int)
    requires
        tex_size.wf(),
        offset.wf(),
        offset.pads_fit(),
        passes >= 0,
        !level_size(tex_size, passes as nat).empty(),
    ensures
        blur_passes(tex_size, Some(Rectangle::of_size(tex_size)), offset, passes) == blur_passes(
            tex_size,
            None,
            offset,
            passes,
        ),
{
    let window = Some(Rectangle::of_size(tex_size));
    assert forall|level: int| 0 <= level <= passes implies #[trigger] level_rect(
        tex_size,
        window,
        offset,
        level as nat,
    ) == level_rect(tex_size, None, offset, level as nat) by {
        lemma_levels_above_not_empty(tex_size, level as nat, passes as nat);
        lemma_whole_texture_window(tex_size, offset, level as nat);
    }
    assert forall|index: int| 0 <= index < 2 * passes implies #[trigger] blur_pass(
        tex_size,
        window,
        offset,
        passes,
        index,
    ) == blur_pass(tex_size, None, offset, passes, index) by {
        let level = pass_level(passes, index);
        let next_level = pass_level(passes, index + 1);
        assert(level_rect(tex_size, window, offset, level as nat) == level_rect(
            tex_size,
            None,
            offset,
            level as nat,
        ));
        assert(level_rect(tex_size, window, offset, next_level as nat) == level_rect(
            tex_size,
            None,
            offset,
            next_level as nat,
        ));
    }
    assert(blur_passes(tex_size, window, offset, passes) =~= blur_passes(
        tex_size,
        None,
        offset,
        passes,
    ));
}

/// The passes that blur a part of a texture sample and render within the
/// texture.
pub proof fn lemma_passes_within_texture(
    tex_size: Size,
    window: Option<Rectangle>,
    offset: BlurOffset,
    passes: int,
    index: int,
)
    requires
        tex_size.wf(),
        offset.wf(),
        window matches Some(window) ==> window.wf() && window.clipped(Rectangle::of_size(tex_size))
            == window,
        0 <= index < 2 * passes,
    ensures
        ({
            let pass = blur_passes(tex_size, window, offset, passes)[index];
            &&& pass.src_rect.unclipped()
            &&& pass.src_rect.within(Rectangle::of_size(pass.level_size))
            &&& pass.dst_rect.unclipped()
            &&& pass.dst_rect.within(Rectangle::of_size(tex_size))
        }),
{
    let level = pass_level(passes, index) as nat;
    let next_level = pass_level(passes, index + 1) as nat;
    lemma_level_size_halves(tex_size, level);
    lemma_level_size_halves(tex_size, next_level);
    if let Some(window) = window {
        lemma_windows_stay_within_levels(tex_size, window, offset, level);
        lemma_windows_stay_within_levels(tex_size, window, offset, next_level);
    }
}

/// The order of the passes: first as many down as are asked for, from the level
/// of the full resolution on, then as many up, from the deepest level on. The
/// main texture is sampled first, and then the two textures take turns.
pub proof fn lemma_passes_in_order(
    tex_size: Size,
    window: Option<Rectangle>,
    offset: BlurOffset,
    passes: int,
    index: int,
)
    requires
        0 <= passes <= MAX_PASSES,
        0 <= index < 2 * passes,
    ensures
        ({
            let all = blur_passes(tex_size, window, offset, passes);
            let pass = all[index];
            &&& all.len() == 2 * passes
            &&& index < passes ==> pass.shader == BlurShader::Down && pass.level == index
            &&& index >= passes ==> pass.shader == BlurShader::Up && pass.level + index == 2
                * passes
            &&& index % 2 == 0 ==> pass.source == BlurTexture::Main && pass.target
                == BlurTexture::Off
            &&& index % 2 == 1 ==> pass.source == BlurTexture::Off && pass.target
                == BlurTexture::Main
        }),
{
}

/// The size that a pass is told of the level it samples is that of the texture,
/// halved once for each level above: scaled up again it does not reach beyond
/// the texture, and one more pixel would.
pub proof fn lemma_pass_level_size(
    tex_size: Size,
    window: Option<Rectangle>,
    offset: BlurOffset,
    passes: int,
    index: int,
)
    requires
        tex_size.wf(),
        0 <= passes <= MAX_PASSES,
        0 <= index < 2 * passes,
    ensures
        ({
            let pass = blur_passes(tex_size, window, offset, passes)[index];
            let scale = pow2(pass.level as nat);
            &&& pass.level == 0 ==> pass.level_size == tex_size
            &&& pass.level_size.w * scale <= tex_size.w < (pass.level_size.w + 1) * scale
            &&& pass.level_size.h * scale <= tex_size.h < (pass.level_size.h + 1) * scale
        }),
{
    lemma_first_level(tex_size);
    lemma_level_size_scales(tex_size, pass_level(passes, index) as nat);
}

/// A pass that samples the level below that of another pass is told half the
/// size, rounded down. Passes that sample the same level are told the same.
pub proof fn lemma_pass_level_sizes_halve(
    tex_size: Size,
    window: Option<Rectangle>,
    offset: BlurOffset,
    passes: int,
    i: int,
    j: int,
)
    requires
        tex_size.wf(),
        0 <= passes <= MAX_PASSES,
        0 <= i < 2 * passes,
        0 <= j < 2 * passes,
    ensures
        ({
            let a = blur_passes(tex_size, window, offset, passes)[i];
            let b = blur_passes(tex_size, window, offset, passes)[j];
            &&& b.level == a.level ==> b.level_size == a.level_size
            &&& b.level == a.level + 1 ==> {
                &&& b.level_size.w == a.level_size.w as int / 2
                &&& b.level_size.h == a.level_size.h as int / 2
            }
        }),
{
    lemma_level_size_halves(tex_size, pass_level(passes, i) as nat);
}

/// Without a window every pass samples all of its level, and renders all of the
/// next: half of it, rounded down, on the way down, and what the pass down from
/// there sampled on the way up.
pub proof fn lemma_whole_passes_cover_levels(
    tex_size: Size,
    offset: BlurOffset,
    passes: int,
    index: int,
)
    requires
        tex_size.wf(),
        0 <= passes <= MAX_PASSES,
        0 <= index < 2 * passes,
    ensures
        ({
            let all = blur_passes(tex_size, None, offset, passes);
            let pass = all[index];
            &&& pass.src_rect.loc.x == 0 && pass.src_rect.loc.y == 0
            &&& pass.src_rect.size == pass.level_size
            &&& pass.dst_rect.loc.x == 0 && pass.dst_rect.loc.y == 0
            &&& index < passes ==> {
                &&& pass.dst_rect.size.w == pass.level_size.w as int / 2
                &&& pass.dst_rect.size.h == pass.level_size.h as int / 2
            }
            &&& index >= passes ==> pass.dst_rect.size == all[2 * passes - 1 - index].level_size
        }),
{
    lemma_level_size_halves(tex_size, pass_level(passes, index) as nat);
}

/// With a window the pass from a level samples the window of that level and
/// renders that of the next, one level down or up.
pub proof fn lemma_window_passes_cover_windows(
    tex_size: Size,
    window: Rectangle,
    offset: BlurOffset,
    passes: int,
    index: int,
)
    requires
        0 <= passes <= MAX_PASSES,
        0 <= index < 2 * passes,
    ensures
        ({
            let pass = blur_passes(tex_size, Some(window), offset, passes)[index];
            let level = pass.level as int;
            &&& level == 0 ==> pass.src_rect == window
            &&& pass.src_rect == level_window(tex_size, window, offset, level as nat)
            &&& pass.shader == BlurShader::Down ==> pass.dst_rect == level_window(
                tex_size,
                window,
                offset,
                (level + 1) as nat,
            )
            &&& pass.shader == BlurShader::Up ==> pass.dst_rect == level_window(
                tex_size,
                window,
                offset,
                (level - 1) as nat,
            )
        }),
{
}

} // verus!
