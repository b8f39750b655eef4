//! The part of each level of a blurred texture that a partial update touches.

use crate::blur::offset::{lemma_pad_shrinks, BlurOffset};
use crate::geometry::{
    clamp_i32, half, lemma_clipped_is_common, lemma_clipped_to_size, lemma_common_edges,
    lemma_downscaled_rounds_down, lemma_expanded_edges, lemma_halved_edges, lemma_quotient_bounds,
    max_i32, min_i32, saturating_add, saturating_sub, Point, Rectangle, Size,
};
use vstd::arithmetic::div_mod::lemma_div_denominator;
use vstd::arithmetic::power2::{
    lemma2_to64, lemma_pow2_pos, lemma_pow2_strictly_increases, lemma_pow2_unfold, pow2,
};
use vstd::math::{max, min};
use vstd::prelude::*;

verus! {

/// The largest number of levels below the full resolution: a level is scaled
/// down by a power of two that has to fit into 32 bits.
pub const MAX_PASSES: usize = 31;

/// The size of `level`: each level has half the resolution of the one above.
pub open spec fn level_size(tex_size: Size, level: nat) -> Size {
    tex_size.downscaled(pow2(level) as int)
}

/// What the blur samples of `level` for its window `current`.
pub open spec fn sampled_window(
    tex_size: Size,
    current: Rectangle,
    offset: BlurOffset,
    level: nat,
) -> Rectangle {
    current.expanded(offset.pad(level)).clipped(Rectangle::of_size(level_size(tex_size, level)))
}

/// The window of the level below `level`, where `current` is that of `level`:
/// what the blur samples around `current`, seen at half the resolution, and
/// what it samples around that on the way up again.
pub open spec fn next_window(
    tex_size: Size,
    current: Rectangle,
    offset: BlurOffset,
    level: nat,
) -> Rectangle {
    sampled_window(tex_size, current, offset, level).halved().expanded(offset.pad(level)).clipped(
        Rectangle::of_size(level_size(tex_size, level + 1)),
    )
}

/// The window of `level`, where `window` is that of the full resolution.
pub open spec fn level_window(
    tex_size: Size,
    window: Rectangle,
    offset: BlurOffset,
    level: nat,
) -> Rectangle
    decreases level,
{
    if level == 0 {
        window
    } else {
        next_window(
            tex_size,
            level_window(tex_size, window, offset, (level - 1) as nat),
            offset,
            (level - 1) as nat,
        )
    }
}

/// The windows of all levels, from the full resolution down.
pub open spec fn level_windows(
    tex_size: Size,
    window: Rectangle,
    offset: BlurOffset,
    passes: int,
) -> Seq<Rectangle> {
    Seq::new(
        (passes + 1) as nat,
        |level: int| level_window(tex_size, window, offset, level as nat),
    )
}

/// The edges of `rect` can be rounded up to the next even coordinate.
pub open spec fn can_halve(rect: Rectangle) -> bool {
    &&& rect.loc.x + rect.size.w < i32::MAX
    &&& rect.loc.y + rect.size.h < i32::MAX
}

/// The windows of the levels below `window` can be computed within the range
/// of `i32`.
pub open spec fn window_fits(tex_size: Size, window: Rectangle, offset: BlurOffset) -> bool {
    &&& offset.pads_fit()
    &&& can_halve(sampled_window(tex_size, window, offset, 0))
}

/// The pad of `level`, where `scale` is the scale of the level below it.
fn level_pad(offset: BlurOffset, scale: i64, Ghost(level): Ghost<nat>) -> (pad: i32)
    requires
        offset.wf(),
        offset.pads_fit(),
        scale == pow2(level + 1),
        scale <= 0x8000_0000,
    ensures
        pad == offset.pad(level),
        1 <= pad,
        2 * pad <= i32::MAX,
{
    let num: u64 = offset.num as u64;
    let den: u64 = offset.den as u64;
    proof {
        lemma_pad_shrinks(offset, level);
        lemma_pow2_pos(level + 1);
        assert(1 <= den * scale <= 0x8000_0000 * 0xffff_ffff) by (nonlinear_arith)
            requires
                1 <= den <= 0xffff_ffff,
                1 <= scale <= 0x8000_0000,
        ;
    }
    let divisor: u64 = den * scale as u64;
    ((num + (divisor - 1)) / divisor) as i32 + 1
}

/// Grows `rect` by `pad` on every side.
pub fn expand_rect(rect: Rectangle, pad: i32) -> (r: Rectangle)
    requires
        0 <= pad,
        2 * pad <= i32::MAX,
    ensures
        r == rect.expanded(pad as int),
        rect.wf() ==> r.wf(),
{
    Rectangle {
        loc: Point { x: saturating_sub(rect.loc.x, pad), y: saturating_sub(rect.loc.y, pad) },
        size: Size {
            w: saturating_add(rect.size.w, pad * 2),
            h: saturating_add(rect.size.h, pad * 2),
        },
    }
}

/// Divides by two, rounding towards zero.
fn halve(v: i32) -> (r: i32)
    ensures
        r == half(v as int),
{
    if v >= 0 {
        v / 2
    } else {
        (-((-(v as i64)) / 2)) as i32
    }
}

/// The rectangle at half the resolution that `rect` becomes.
pub fn halve_rect(rect: Rectangle) -> (r: Rectangle)
    requires
        rect.wf(),
        can_halve(rect),
    ensures
        r == rect.halved(),
        r.wf(),
{
    let x1: i32 = halve(rect.loc.x);
    let y1: i32 = halve(rect.loc.y);
    let x2: i32 = halve(rect.loc.x + rect.size.w + 1);
    let y2: i32 = halve(rect.loc.y + rect.size.h + 1);
    Rectangle { loc: Point { x: x1, y: y1 }, size: Size { w: x2 - x1, h: y2 - y1 } }
}

/// The window of the level below `level`, whose scale is `scale` and whose
/// window is `current`.
fn window_below(
    tex_size: Size,
    current: Rectangle,
    offset: BlurOffset,
    scale: i64,
    Ghost(level): Ghost<nat>,
) -> (r: Rectangle)
    requires
        tex_size.wf(),
        current.wf(),
        offset.wf(),
        offset.pads_fit(),
        can_halve(sampled_window(tex_size, current, offset, level)),
        scale == pow2(level),
        2 * scale == pow2(level + 1),
        2 * scale <= 0x8000_0000,
    ensures
        r == next_window(tex_size, current, offset, level),
        r.wf(),
{
    proof {
        lemma_pow2_pos(level);
    }
    let pad: i32 = level_pad(offset, scale * 2, Ghost(level));
    let bounds: Rectangle = Rectangle::from_size(tex_size.downscale(scale));
    let next_bounds: Rectangle = Rectangle::from_size(tex_size.downscale(scale * 2));
    let expanded: Rectangle = expand_rect(current, pad).clip(bounds);
    expand_rect(halve_rect(expanded), pad).clip(next_bounds)
}

/// The windows of all levels, from the full resolution down to the level that
/// `passes` halvings lead to, where `window` is that of the full resolution.
pub fn blur_level_windows(
    tex_size: Size,
    window: Rectangle,
    offset: BlurOffset,
    passes: usize,
) -> (windows: Vec<Rectangle>)
    requires
        tex_size.wf(),
        window.wf(),
        offset.wf(),
        passes > 0 ==> window_fits(tex_size, window, offset),
        passes <= MAX_PASSES,
    ensures
        windows@ == Seq::new(
            (passes + 1) as nat,
            |level: int| level_window(tex_size, window, offset, level as nat),
        ),
        windows@ == level_windows(tex_size, window, offset, passes as int),
{
    let mut windows: Vec<Rectangle> = Vec::with_capacity(passes + 1);
    let mut current: Rectangle = window;
    windows.push(current);
    let mut scale: i64 = 1;
    let mut level: usize = 0;
    proof {
        lemma2_to64();
    }
    while level < passes
        invariant
            tex_size.wf(),
            window.wf(),
            offset.wf(),
            passes > 0 ==> window_fits(tex_size, window, offset),
            level <= passes <= MAX_PASSES,
            scale == pow2(level as nat),
            current.wf(),
            current == level_window(tex_size, window, offset, level as nat),
            windows@ == Seq::new(
                (level + 1) as nat,
                |i: int| level_window(tex_size, window, offset, i as nat),
            ),
        decreases passes - level,
    {
        proof {
            lemma_pow2_unfold((level + 1) as nat);
            lemma_scale_fits((level + 1) as nat);
            lemma_windows_can_halve(tex_size, window, offset, level as nat);
        }
        current = window_below(tex_size, current, offset, scale, Ghost(level as nat));
        windows.push(current);
        scale = scale * 2;
        level = level + 1;
    }
    windows
}

/// The scale of the deepest level fits into 32 bits.
pub proof fn lemma_scale_fits(level: nat)
    requires
        level <= MAX_PASSES,
    ensures
        pow2(level) <= 0x8000_0000,
{
    lemma2_to64();
    if level < 31 {
        lemma_pow2_strictly_increases(level, 31);
    }
}

/// The first level has the full resolution.
pub proof fn lemma_first_level(tex_size: Size)
    ensures
        level_size(tex_size, 0) == tex_size,
{
    lemma2_to64();
    assert(pow2(0) == 1);
    assert(level_size(tex_size, 0) == tex_size.downscaled(1));
}

/// The sizes of the levels halve, rounding down.
pub proof fn lemma_level_size_halves(tex_size: Size, level: nat)
    requires
        tex_size.wf(),
    ensures
        level_size(tex_size, level).wf(),
        level_size(tex_size, level).w <= tex_size.w,
        level_size(tex_size, level).h <= tex_size.h,
        level_size(tex_size, level + 1).w == level_size(tex_size, level).w as int / 2,
        level_size(tex_size, level + 1).h == level_size(tex_size, level).h as int / 2,
{
    let scale = pow2(level) as int;
    lemma_pow2_pos(level);
    lemma_pow2_unfold(level + 1);
    lemma_quotient_bounds(tex_size.w as int, scale);
    lemma_quotient_bounds(tex_size.h as int, scale);
    lemma_div_denominator(tex_size.w as int, scale, 2);
    lemma_div_denominator(tex_size.h as int, scale, 2);
    assert(scale * 2 == pow2(level + 1));
}

proof fn lemma_sampled_can_halve(
    tex_size: Size,
    current: Rectangle,
    offset: BlurOffset,
    level: nat,
)
    requires
        tex_size.wf(),
        current.wf(),
        offset.wf(),
        level_size(tex_size, level).w < i32::MAX,
        level_size(tex_size, level).h < i32::MAX,
    ensures
        can_halve(sampled_window(tex_size, current, offset, level)),
{
    lemma_pad_shrinks(offset, level);
    lemma_level_size_halves(tex_size, level);
    lemma_clipped_to_size(current.expanded(offset.pad(level)), level_size(tex_size, level));
}

/// What is sampled of every level can be halved if it can be at the full
/// resolution. That is so in every texture that does not reach to the last
/// coordinate.
pub proof fn lemma_windows_can_halve(
    tex_size: Size,
    window: Rectangle,
    offset: BlurOffset,
    level: nat,
)
    requires
        tex_size.wf(),
        window.wf(),
        offset.wf(),
        ({
            ||| can_halve(sampled_window(tex_size, window, offset, 0))
            ||| tex_size.w < i32::MAX && tex_size.h < i32::MAX
        }),
    ensures
        can_halve(
            sampled_window(tex_size, level_window(tex_size, window, offset, level), offset, level),
        ),
{
    let current = level_window(tex_size, window, offset, level);
    lemma_window_wf(tex_size, window, offset, level);
    if level > 0 {
        let above = (level - 1) as nat;
        lemma_level_size_halves(tex_size, above);
        assert(level_size(tex_size, level) == level_size(tex_size, above + 1));
        lemma_sampled_can_halve(tex_size, current, offset, level);
    } else if tex_size.w < i32::MAX && tex_size.h < i32::MAX {
        lemma_first_level(tex_size);
        lemma_sampled_can_halve(tex_size, current, offset, level);
    }
}

/// Every window below the full resolution stays within its level: clipping it
/// to a level that is not empty changes nothing. The window of the full
/// resolution is the one that was asked for, so it stays within the texture if
/// that one does.
pub proof fn lemma_windows_stay_within_levels(
    tex_size: Size,
    window: Rectangle,
    offset: BlurOffset,
    level: nat,
)
    requires
        tex_size.wf(),
        window.wf(),
        offset.wf(),
        level > 0 || window.clipped(Rectangle::of_size(tex_size)) == window,
    ensures
        ({
            let bounds = Rectangle::of_size(level_size(tex_size, level));
            let clamped = level_window(tex_size, window, offset, level);
            &&& clamped.unclipped()
            &&& clamped.left() >= 0
            &&& clamped.top() >= 0
            &&& clamped.within(bounds)
            &&& !bounds.empty() ==> clamped.clipped(bounds) == clamped
        }),
    decreases level,
{
    if level == 0 {
        lemma_first_level(tex_size);
        lemma_clipped_to_size(window, tex_size);
    } else {
        let above = (level - 1) as nat;
        let current = level_window(tex_size, window, offset, above);
        lemma_window_wf(tex_size, window, offset, above);
        lemma_next_window(tex_size, current, offset, above);
    }
}

/// A window is never of negative size.
proof fn lemma_window_wf(tex_size: Size, window: Rectangle, offset: BlurOffset, level: nat)
    requires
        tex_size.wf(),
        window.wf(),
        offset.wf(),
    ensures
        level_window(tex_size, window, offset, level).wf(),
    decreases level,
{
    if level > 0 {
        let above = (level - 1) as nat;
        lemma_window_wf(tex_size, window, offset, above);
        lemma_next_window(tex_size, level_window(tex_size, window, offset, above), offset, above);
    }
}

/// The steps from a window to the one below it.
proof fn lemma_next_window(tex_size: Size, current: Rectangle, offset: BlurOffset, level: nat)
    requires
        tex_size.wf(),
        current.wf(),
        offset.wf(),
    ensures
        ({
            let bounds = Rectangle::of_size(level_size(tex_size, level + 1));
            let next = next_window(tex_size, current, offset, level);
            &&& next.unclipped()
            &&& next.left() >= 0
            &&& next.top() >= 0
            &&& next.within(bounds)
            &&& !bounds.empty() ==> next.clipped(bounds) == next
        }),
{
    let pad = offset.pad(level);
    lemma_pad_shrinks(offset, level);
    lemma_level_size_halves(tex_size, level);
    lemma_level_size_halves(tex_size, level + 1);
    lemma_clipped_to_size(current.expanded(pad), level_size(tex_size, level));
    let sampled = sampled_window(tex_size, current, offset, level);
    lemma_clipped_to_size(sampled.halved().expanded(pad), level_size(tex_size, level + 1));
}

/// As long as the levels themselves are not empty, neither are the windows of
/// a window that is not.
pub proof fn lemma_windows_not_empty(
    tex_size: Size,
    window: Rectangle,
    offset: BlurOffset,
    level: nat,
)
    requires
        tex_size.wf(),
        window.wf(),
        window.clipped(Rectangle::of_size(tex_size)) == window,
        !window.empty(),
        offset.wf(),
        offset.pads_fit(),
        !level_size(tex_size, level).empty(),
    ensures
        !level_window(tex_size, window, offset, level).empty(),
    decreases level,
{
    if level > 0 {
        let above = (level - 1) as nat;
        lemma_level_size_halves(tex_size, above);
        lemma_level_size_halves(tex_size, level);
        lemma_windows_not_empty(tex_size, window, offset, above);
        lemma_windows_stay_within_levels(tex_size, window, offset, above);
        lemma_pad_shrinks(offset, above);
        lemma_next_window_covers_samples(
            tex_size,
            level_window(tex_size, window, offset, above),
            offset,
            above,
        );
    }
}

/// The step from a window that is not empty to the one below it.
#[verifier::rlimit(50)]
proof fn lemma_next_window_covers_samples(
    tex_size: Size,
    current: Rectangle,
    offset: BlurOffset,
    level: nat,
)
    requires
        tex_size.wf(),
        current.unclipped(),
        !current.empty(),
        current.left() >= 0,
        current.top() >= 0,
        current.within(Rectangle::of_size(level_size(tex_size, level))),
        offset.wf(),
        offset.pads_fit(),
        !level_size(tex_size, level + 1).empty(),
    ensures
        ({
            let bounds = Rectangle::of_size(level_size(tex_size, level));
            let sampled = sampled_window(tex_size, current, offset, level);
            let next = next_window(tex_size, current, offset, level);
            &&& grows_unclipped(tex_size, offset) ==> current.within(sampled)
            &&& 2 * next.left() <= sampled.left()
            &&& 2 * next.top() <= sampled.top()
            &&& sampled.right() <= 2 * next.right() + 1
            &&& sampled.bottom() <= 2 * next.bottom() + 1
            &&& !next.empty()
            &&& grows_unclipped(tex_size, offset) ==> reaches_up(tex_size, current, offset, level)
            &&& current == bounds ==> next == Rectangle::of_size(level_size(tex_size, level + 1))
        }),
{
    let pad = offset.pad(level);
    lemma_pad_shrinks(offset, level);
    lemma_level_size_halves(tex_size, level);
    lemma_level_size_halves(tex_size, level + 1);
    let size = level_size(tex_size, level);
    let next_size = level_size(tex_size, level + 1);
    lemma_axis_covers_samples(current.loc.x, current.size.w, pad, size.w, next_size.w);
    lemma_axis_covers_samples(current.loc.y, current.size.h, pad, size.h, next_size.h);
    let bounds = Rectangle::of_size(size);
    let next_bounds = Rectangle::of_size(next_size);
    let expanded = current.expanded(pad);
    assert(expanded.overlapping(bounds));
    let sampled = sampled_window(tex_size, current, offset, level);
    assert(sampled == Rectangle::of_edges(
        max_i32(expanded.left(), 0),
        max_i32(expanded.top(), 0),
        min_i32(expanded.right(), size.w),
        min_i32(expanded.bottom(), size.h),
    ));
    let grown = sampled.halved().expanded(pad);
    assert(grown.overlapping(next_bounds));
    let next = grown.clipped(next_bounds);
    assert(next == Rectangle::of_edges(
        max_i32(grown.left(), 0),
        max_i32(grown.top(), 0),
        min_i32(grown.right(), next_size.w),
        min_i32(grown.bottom(), next_size.h),
    ));
    assert(next == next_window(tex_size, current, offset, level));
}

/// The steps from a window to the one below it, along one axis: `start` and
/// `len` are those of the window, `size` and `next_size` those of the levels.
proof fn lemma_axis_covers_samples(start: i32, len: i32, pad: int, size: i32, next_size: i32)
    requires
        0 <= start,
        0 < len,
        start + len <= size,
        1 <= pad,
        2 * pad <= i32::MAX,
        next_size == size as int / 2,
        0 < next_size,
    ensures
        ({
            let grown = clamp_i32(start - pad);
            let grown_end = clamp_i32(grown + clamp_i32(len + 2 * pad));
            let sampled = max_i32(grown, 0);
            let sampled_end = min_i32(grown_end, size);
            let halved = half(sampled as int);
            let halved_end = half(sampled + clamp_i32(sampled_end - sampled) + 1);
            let halved_len = halved_end - halved;
            let wide = clamp_i32(halved - pad);
            let wide_end = clamp_i32(wide + clamp_i32(halved_len + 2 * pad));
            let next = max_i32(wide, 0);
            let next_end = min_i32(wide_end, next_size);
            &&& grown < size
            &&& 0 < grown_end
            &&& sampled < sampled_end
            &&& sampled_end - sampled <= i32::MAX
            &&& size + pad <= i32::MAX ==> sampled <= start && start + len <= sampled_end
            &&& 0 <= halved <= i32::MAX
            &&& 0 <= halved_len <= i32::MAX
            &&& wide < next_size
            &&& 0 < wide_end
            &&& 2 * next <= sampled
            &&& sampled_end <= 2 * next_end + 1
            &&& size + pad <= i32::MAX ==> {
                &&& next <= 0 || next <= start as int / 2 - pad
                &&& next_end >= next_size || next_end >= (start + len + 1) / 2 + pad
            }
            &&& next < next_end
            &&& start == 0 && len == size ==> next == 0 && next_end == next_size
        }),
{
}

/// The whole texture can be grown by a pad without reaching the bounds of
/// `i32`.
pub open spec fn grows_unclipped(tex_size: Size, offset: BlurOffset) -> bool {
    &&& tex_size.w + offset.pad(0) <= i32::MAX
    &&& tex_size.h + offset.pad(0) <= i32::MAX
}

/// The window below `current` reaches as far as is sampled on the way up: by
/// the pad beyond `current` at half the resolution, or to the edges of its
/// level.
pub open spec fn reaches_up(
    tex_size: Size,
    current: Rectangle,
    offset: BlurOffset,
    level: nat,
) -> bool {
    let pad = offset.pad(level);
    let size = level_size(tex_size, level + 1);
    let next = next_window(tex_size, current, offset, level);
    &&& next.left() <= 0 || next.left() <= current.left() as int / 2 - pad
    &&& next.top() <= 0 || next.top() <= current.top() as int / 2 - pad
    &&& next.right() >= size.w || next.right() >= (current.right() + 1) / 2 + pad
    &&& next.bottom() >= size.h || next.bottom() >= (current.bottom() + 1) / 2 + pad
}

/// A window at half the resolution, doubled, covers everything that is sampled
/// around the window above it on the way down, but for the odd last row and
/// column that the level below has no pixels for. It also covers what is
/// sampled to render the window above it on the way up.
pub proof fn lemma_window_covers_samples(
    tex_size: Size,
    window: Rectangle,
    offset: BlurOffset,
    level: nat,
)
    requires
        tex_size.wf(),
        window.wf(),
        window.clipped(Rectangle::of_size(tex_size)) == window,
        !window.empty(),
        offset.wf(),
        offset.pads_fit(),
        grows_unclipped(tex_size, offset),
        !level_size(tex_size, level + 1).empty(),
    ensures
        ({
            let current = level_window(tex_size, window, offset, level);
            let sampled = sampled_window(tex_size, current, offset, level);
            let next = level_window(tex_size, window, offset, level + 1);
            &&& current.within(sampled)
            &&& 2 * next.left() <= sampled.left()
            &&& 2 * next.top() <= sampled.top()
            &&& sampled.right() <= 2 * next.right() + 1
            &&& sampled.bottom() <= 2 * next.bottom() + 1
            &&& reaches_up(tex_size, current, offset, level)
        }),
{
    lemma_level_size_halves(tex_size, level);
    lemma_level_size_halves(tex_size, level + 1);
    lemma_windows_not_empty(tex_size, window, offset, level);
    lemma_windows_stay_within_levels(tex_size, window, offset, level);
    lemma_next_window_covers_samples(
        tex_size,
        level_window(tex_size, window, offset, level),
        offset,
        level,
    );
}

/// If a level is not empty, neither are those above it.
pub proof fn lemma_levels_above_not_empty(tex_size: Size, level: nat, deeper: nat)
    requires
        tex_size.wf(),
        level <= deeper,
        !level_size(tex_size, deeper).empty(),
    ensures
        !level_size(tex_size, level).empty(),
    decreases deeper,
{
    if level < deeper {
        lemma_level_size_halves(tex_size, (deeper - 1) as nat);
        lemma_levels_above_not_empty(tex_size, level, (deeper - 1) as nat);
    }
}

/// The windows of the whole texture are the whole levels, as long as these are
/// not empty.
pub proof fn lemma_whole_texture_window(tex_size: Size, offset: BlurOffset, level: nat)
    requires
        tex_size.wf(),
        offset.wf(),
        offset.pads_fit(),
        !level_size(tex_size, level).empty(),
    ensures
        level_window(tex_size, Rectangle::of_size(tex_size), offset, level) == Rectangle::of_size(
            level_size(tex_size, level),
        ),
    decreases level,
{
    if level == 0 {
        lemma_first_level(tex_size);
    } else {
        let above = (level - 1) as nat;
        lemma_level_size_halves(tex_size, above);
        lemma_whole_texture_window(tex_size, offset, above);
        lemma_next_window_covers_samples(
            tex_size,
            Rectangle::of_size(level_size(tex_size, above)),
            offset,
            above,
        );
    }
}

/// The size of a level is that of the texture divided by two to the power of
/// the level, rounded down.
pub proof fn lemma_level_size_scales(tex_size: Size, level: nat)
    requires
        tex_size.wf(),
    ensures
        ({
            let size = level_size(tex_size, level);
            &&& size.w * pow2(level) <= tex_size.w < (size.w + 1) * pow2(level)
            &&& size.h * pow2(level) <= tex_size.h < (size.h + 1) * pow2(level)
        }),
{
    lemma_pow2_pos(level);
    lemma_downscaled_rounds_down(tex_size, pow2(level) as int);
}

/// The step from a window to the one below it, along one axis: how far the
/// window below reaches.
proof fn lemma_axis_edges(start: i32, len: i32, pad: int, size: i32, next_size: i32)
    requires
        0 <= start,
        0 < len,
        start + len <= size,
        1 <= pad,
        2 * pad <= i32::MAX,
        size + pad <= i32::MAX,
        next_size == size as int / 2,
        0 < next_size,
    ensures
        ({
            let grown = clamp_i32(start - pad);
            let grown_end = clamp_i32(grown + clamp_i32(len + 2 * pad));
            let sampled = max_i32(grown, 0);
            let sampled_end = min_i32(grown_end, size);
            let halved = half(sampled as int);
            let halved_end = half(sampled + clamp_i32(sampled_end - sampled) + 1);
            let halved_len = halved_end - halved;
            let wide = clamp_i32(halved - pad);
            let wide_end = clamp_i32(wide + clamp_i32(halved_len + 2 * pad));
            &&& max_i32(wide, 0) == max(0, max(0, start - pad) / 2 - pad)
            &&& min_i32(wide_end, next_size) == min(
                next_size as int,
                (min(size as int, start + len + pad) + 1) / 2 + pad,
            )
        }),
{
}

/// The window of the full resolution is the one that was asked for. How far the
/// window below a window reaches: it is what lies within a pad of the window
/// above, seen at half the resolution and rounded outwards, and a pad more, as
/// far as the levels reach.
#[verifier::rlimit(50)]
pub proof fn lemma_window_edges(
    tex_size: Size,
    window: Rectangle,
    offset: BlurOffset,
    level: nat,
)
    requires
        tex_size.wf(),
        0 <= window.loc.x,
        0 <= window.loc.y,
        0 < window.size.w,
        0 < window.size.h,
        window.loc.x + window.size.w <= tex_size.w,
        window.loc.y + window.size.h <= tex_size.h,
        offset.wf(),
        offset.pads_fit(),
        tex_size.w + offset.pad(0) <= i32::MAX,
        tex_size.h + offset.pad(0) <= i32::MAX,
        !level_size(tex_size, level + 1).empty(),
    ensures
        level_window(tex_size, window, offset, 0) == window,
        ({
            let pad = offset.pad(level);
            let size = level_size(tex_size, level);
            let below = level_size(tex_size, level + 1);
            let current = level_window(tex_size, window, offset, level);
            let next = level_window(tex_size, window, offset, level + 1);
            let right = min(size.w as int, current.loc.x + current.size.w + pad);
            let bottom = min(size.h as int, current.loc.y + current.size.h + pad);
            &&& next.loc.x == max(0, max(0, current.loc.x - pad) / 2 - pad)
            &&& next.loc.y == max(0, max(0, current.loc.y - pad) / 2 - pad)
            &&& next.loc.x + next.size.w == min(below.w as int, (right + 1) / 2 + pad)
            &&& next.loc.y + next.size.h == min(below.h as int, (bottom + 1) / 2 + pad)
        }),
{
    let full = Rectangle::of_size(tex_size);
    assert(window.clipped(full) == window) by {
        assert(window.overlapping(full));
    }
    lemma_level_size_halves(tex_size, level);
    lemma_level_size_halves(tex_size, level + 1);
    lemma_windows_not_empty(tex_size, window, offset, level);
    lemma_windows_stay_within_levels(tex_size, window, offset, level);
    let current = level_window(tex_size, window, offset, level);
    lemma_next_window_covers_samples(tex_size, current, offset, level);
    let pad = offset.pad(level);
    lemma_pad_shrinks(offset, level);
    let size = level_size(tex_size, level);
    let below = level_size(tex_size, level + 1);
    lemma_axis_edges(current.loc.x, current.size.w, pad, size.w, below.w);
    lemma_axis_edges(current.loc.y, current.size.h, pad, size.h, below.h);
    let expanded = current.expanded(pad);
    let sampled = sampled_window(tex_size, current, offset, level);
    assert(expanded.overlapping(Rectangle::of_size(size)));
    assert(sampled == Rectangle::of_edges(
        max_i32(expanded.left(), 0),
        max_i32(expanded.top(), 0),
        min_i32(expanded.right(), size.w),
        min_i32(expanded.bottom(), size.h),
    ));
    let grown = sampled.halved().expanded(pad);
    let next = next_window(tex_size, current, offset, level);
    assert(grown.overlapping(Rectangle::of_size(below)));
    assert(next == Rectangle::of_edges(
        max_i32(grown.left(), 0),
        max_i32(grown.top(), 0),
        min_i32(grown.right(), below.w),
        min_i32(grown.bottom(), below.h),
    ));
}

/// Growing and clipping, edge by edge.
proof fn lemma_clipped_edges(current: Rectangle, pad: int, size: Size)
    requires
        current.wf(),
        size.wf(),
        0 <= pad,
        current.loc.x - pad >= i32::MIN,
        current.loc.y - pad >= i32::MIN,
        current.size.w + 2 * pad <= i32::MAX,
        current.size.h + 2 * pad <= i32::MAX,
        current.loc.x + current.size.w + pad <= i32::MAX,
        current.loc.y + current.size.h + pad <= i32::MAX,
    ensures
        ({
            let clipped = current.expanded(pad).clipped(Rectangle::of_size(size));
            let right = current.loc.x + current.size.w + pad;
            let bottom = current.loc.y + current.size.h + pad;
            let near = {
                &&& current.loc.x - pad < size.w && 0 < right
                &&& current.loc.y - pad < size.h && 0 < bottom
            };
            &&& clipped.unclipped()
            &&& near ==> {
                &&& clipped.loc.x == max(0, current.loc.x - pad)
                &&& clipped.loc.y == max(0, current.loc.y - pad)
                &&& clipped.loc.x + clipped.size.w == min(size.w as int, right)
                &&& clipped.loc.y + clipped.size.h == min(size.h as int, bottom)
            }
            &&& !near ==> {
                &&& clipped.loc.x == 0 && clipped.loc.y == 0
                &&& clipped.size.w == 0 && clipped.size.h == 0
            }
        }),
{
    let bounds = Rectangle::of_size(size);
    let expanded = current.expanded(pad);
    lemma_expanded_edges(current, pad);
    lemma_common_edges(expanded, bounds);
    lemma_clipped_is_common(expanded, bounds);
    lemma_clipped_to_size(expanded, size);
}

/// Halving, growing and clipping, edge by edge.
proof fn lemma_regrown_edges(sampled: Rectangle, pad: int, size: Size, below: Size)
    requires
        sampled.unclipped(),
        size.wf(),
        1 <= pad,
        size.w + 2 * pad <= i32::MAX,
        size.h + 2 * pad <= i32::MAX,
        0 <= sampled.loc.x <= size.w,
        0 <= sampled.loc.y <= size.h,
        sampled.loc.x + sampled.size.w <= size.w,
        sampled.loc.y + sampled.size.h <= size.h,
        below.w == size.w as int / 2,
        below.h == size.h as int / 2,
    ensures
        ({
            let next = sampled.halved().expanded(pad).clipped(Rectangle::of_size(below));
            &&& next.loc.x == max(0, sampled.loc.x as int / 2 - pad)
            &&& next.loc.y == max(0, sampled.loc.y as int / 2 - pad)
            &&& next.loc.x + next.size.w == min(
                below.w as int,
                (sampled.loc.x + sampled.size.w + 1) / 2 + pad,
            )
            &&& next.loc.y + next.size.h == min(
                below.h as int,
                (sampled.loc.y + sampled.size.h + 1) / 2 + pad,
            )
        }),
{
    let halved = sampled.halved();
    lemma_halved_edges(sampled);
    assert(halved.loc.x == sampled.loc.x as int / 2);
    assert(halved.loc.y == sampled.loc.y as int / 2);
    assert(halved.loc.x + halved.size.w == (sampled.loc.x + sampled.size.w + 1) / 2);
    assert(halved.loc.y + halved.size.h == (sampled.loc.y + sampled.size.h + 1) / 2);
    lemma_clipped_edges(halved, pad, below);
}

/// How far the window below any window reaches, also below one that lies beside
/// the texture, as long as no coordinate leaves the range of `i32`. If nothing
/// of the level lies within a pad of the window, it is a pad around nothing at
/// the origin.
pub proof fn lemma_next_window_edges(
    tex_size: Size,
    current: Rectangle,
    offset: BlurOffset,
    level: nat,
)
    requires
        tex_size.wf(),
        current.wf(),
        offset.wf(),
        offset.pads_fit(),
        current.loc.x - offset.pad(level) >= i32::MIN,
        current.loc.y - offset.pad(level) >= i32::MIN,
        current.size.w + 2 * offset.pad(level) <= i32::MAX,
        current.size.h + 2 * offset.pad(level) <= i32::MAX,
        current.loc.x + current.size.w + offset.pad(level) <= i32::MAX,
        current.loc.y + current.size.h + offset.pad(level) <= i32::MAX,
        tex_size.w + 2 * offset.pad(level) <= i32::MAX,
        tex_size.h + 2 * offset.pad(level) <= i32::MAX,
    ensures
        ({
            let pad = offset.pad(level);
            let size = level_size(tex_size, level);
            let below = level_size(tex_size, level + 1);
            let next = next_window(tex_size, current, offset, level);
            let right = current.loc.x + current.size.w + pad;
            let bottom = current.loc.y + current.size.h + pad;
            let near = {
                &&& current.loc.x - pad < size.w && 0 < right
                &&& current.loc.y - pad < size.h && 0 < bottom
            };
            &&& near ==> {
                &&& next.loc.x == max(0, max(0, current.loc.x - pad) / 2 - pad)
                &&& next.loc.y == max(0, max(0, current.loc.y - pad) / 2 - pad)
                &&& next.loc.x + next.size.w == min(
                    below.w as int,
                    (min(size.w as int, right) + 1) / 2 + pad,
                )
                &&& next.loc.y + next.size.h == min(
                    below.h as int,
                    (min(size.h as int, bottom) + 1) / 2 + pad,
                )
            }
            &&& !near ==> {
                &&& next.loc.x == 0 && next.loc.y == 0
                &&& next.size.w == min(below.w as int, pad)
                &&& next.size.h == min(below.h as int, pad)
            }
        }),
{
    let pad = offset.pad(level);
    lemma_pad_shrinks(offset, level);
    lemma_level_size_halves(tex_size, level);
    lemma_level_size_halves(tex_size, level + 1);
    let size = level_size(tex_size, level);
    let sampled = sampled_window(tex_size, current, offset, level);
    lemma_clipped_edges(current, pad, size);
    lemma_regrown_edges(sampled, pad, size, level_size(tex_size, level + 1));
}

/// There is one window more than there are passes. The first is the one that was
/// asked for, and each follows from the one before it and from the place it is
/// at, whatever comes after it: more passes only add windows.
pub proof fn lemma_windows_follow(
    tex_size: Size,
    window: Rectangle,
    offset: BlurOffset,
    passes: int,
    level: int,
)
    requires
        0 <= level < passes,
    ensures
        ({
            let windows = level_windows(tex_size, window, offset, passes);
            &&& windows.len() == passes + 1
            &&& windows[0] == window
            &&& windows[level + 1] == next_window(tex_size, windows[level], offset, level as nat)
            &&& windows.drop_last() == level_windows(tex_size, window, offset, passes - 1)
        }),
{
    assert(level_windows(tex_size, window, offset, passes).drop_last() =~= level_windows(
        tex_size,
        window,
        offset,
        passes - 1,
    ));
}

} // verus!
