//! Which part of a captured backdrop has to be blurred again.

use crate::blur::windows::expand_rect;
use crate::geometry::{
    lemma_clipped_to_size, lemma_common_edges, lemma_expanded_edges, max, max_i32, min, min_i32, Point,
    Rectangle, Size,
};
use vstd::math::{abs, max as max_int, min as min_int};
use vstd::prelude::*;

verus! {

/// The first integer that is beyond the significand of a 64-bit floating-point
/// number, which has 53 bits.
pub open spec fn significand_bound() -> nat {
    0x20_0000_0000_0000
}

/// The distance of the floating-point numbers of the magnitude of `n`.
pub open spec fn float_step(n: nat) -> nat
    decreases n,
{
    if n < significand_bound() {
        1
    } else {
        2 * float_step(n / 2)
    }
}

/// The floating-point number closest to `n`; of two that are equally close,
/// the one with the even significand.
pub open spec fn float_nearest(n: nat) -> nat {
    let step = float_step(n);
    let below = n / step;
    let rest = n % step;
    if 2 * rest < step || (2 * rest == step && below % 2 == 0) {
        below * step
    } else {
        (below + 1) * step
    }
}

/// Whether `part` is at most 85 percent of `whole`, in 64-bit floating-point
/// arithmetic: both are rounded, and so is their quotient. The number closest
/// to 0.85 is `7656119366529843 / 2^53`. A quotient is rounded to at most that
/// if it is less than the middle between that number and the next.
pub open spec fn worth_partial(part: nat, whole: nat) -> bool {
    float_nearest(part) * 0x40_0000_0000_0000 < 15312238733059687 * float_nearest(whole)
}

/// The smallest rectangle around two rectangles.
pub open spec fn hull(a: Rectangle, b: Rectangle) -> Rectangle {
    Rectangle::of_edges(
        min_i32(a.left(), b.left()),
        min_i32(a.top(), b.top()),
        max_i32(a.right(), b.right()),
        max_i32(a.bottom(), b.bottom()),
    )
}

/// The smallest rectangle around the parts of `damage` within `bounds`.
pub open spec fn damage_bounds(damage: Seq<Rectangle>, bounds: Rectangle) -> Option<Rectangle>
    decreases damage.len(),
{
    if damage.len() == 0 {
        None
    } else {
        let before = damage_bounds(damage.drop_last(), bounds);
        match damage.last().common(bounds) {
            None => before,
            Some(part) => match before {
                None => Some(part),
                Some(window) => Some(hull(window, part)),
            },
        }
    }
}

/// The sizes differ by at most one pixel in each dimension.
pub open spec fn sizes_match(a: Size, b: Size) -> bool {
    &&& -1 <= a.w - b.w <= 1
    &&& -1 <= a.h - b.h <= 1
}

/// What of a texture of `tex_size`, drawn to `dst`, has to be captured again
/// after `damage`: the area around all damage and `margin` pixels more, within
/// the texture. There is no such window if nothing of the texture is damaged,
/// if the texture is drawn at another size, or if it is hardly smaller than
/// the texture.
pub open spec fn capture_window(
    damage: Seq<Rectangle>,
    dst: Rectangle,
    tex_size: Size,
    margin: int,
) -> Option<Rectangle> {
    let full = Rectangle::of_size(tex_size);
    if damage.len() == 0 || !sizes_match(dst.size, tex_size) {
        None
    } else {
        match damage_bounds(damage, full) {
            None => None,
            Some(damaged) => match damaged.expanded(margin).common(full) {
                None => None,
                Some(window) => if !window.empty() && worth_partial(
                    window.size.area() as nat,
                    tex_size.area() as nat,
                ) {
                    Some(window)
                } else {
                    None
                },
            },
        }
    }
}

/// Rounds `n` to the closest floating-point number.
fn round_to_float(n: u64) -> (r: u64)
    requires
        n <= 0x4000_0000_0000_0000,
    ensures
        r == float_nearest(n as nat),
{
    let mut step: u64 = 1;
    let mut significand: u64 = n;
    while significand >= 0x20_0000_0000_0000
        invariant
            1 <= step,
            significand == n / step,
            step * significand <= n,
            step > 1 ==> step <= n,
            n <= 0x4000_0000_0000_0000,
            float_step(n as nat) == step * float_step(significand as nat),
        decreases significand,
    {
        proof {
            vstd::arithmetic::div_mod::lemma_div_denominator(n as int, step as int, 2);
            let halved = significand / 2;
            assert(float_step(significand as nat) == 2 * float_step(halved as nat));
            assert(step * (2 * float_step(halved as nat)) == (step * 2) * float_step(
                halved as nat,
            )) by (nonlinear_arith);
            assert(step * 2 <= n) by (nonlinear_arith)
                requires
                    step * significand <= n,
                    significand >= 2,
            ;
            assert((step * 2) * halved <= n) by (nonlinear_arith)
                requires
                    step * significand <= n,
                    2 * halved <= significand,
                    0 <= step,
            ;
        }
        step = step * 2;
        significand = significand / 2;
    }
    let rest: u64 = n % step;
    proof {
        assert(float_step(significand as nat) == 1);
        assert(float_step(n as nat) == step) by (nonlinear_arith)
            requires
                float_step(n as nat) == step * float_step(significand as nat),
                float_step(significand as nat) == 1,
        ;
        assert((significand + 1) * step == step * significand + step) by (nonlinear_arith);
        assert(significand * step == step * significand) by (nonlinear_arith);
    }
    if 2 * rest < step || (2 * rest == step && significand % 2 == 0) {
        significand * step
    } else {
        (significand + 1) * step
    }
}

/// Whether capturing `part` pixels again is worth the trouble, rather than
/// capturing all of the `whole` pixels.
fn is_worth_partial(part: u64, whole: u64) -> (r: bool)
    requires
        part <= 0x4000_0000_0000_0000,
        whole <= 0x4000_0000_0000_0000,
    ensures
        r == worth_partial(part as nat, whole as nat),
{
    let part: u128 = round_to_float(part) as u128;
    let whole: u128 = round_to_float(whole) as u128;
    part * 0x40_0000_0000_0000 < 15312238733059687 * whole
}

/// The smallest rectangle around two rectangles.
fn join(a: Rectangle, b: Rectangle) -> (r: Rectangle)
    requires
        a.unclipped(),
        b.unclipped(),
        a.left() >= 0,
        a.top() >= 0,
        b.left() >= 0,
        b.top() >= 0,
    ensures
        r == hull(a, b),
        r.unclipped(),
        r.left() == min_i32(a.left(), b.left()),
        r.top() == min_i32(a.top(), b.top()),
        r.right() == max_i32(a.right(), b.right()),
        r.bottom() == max_i32(a.bottom(), b.bottom()),
{
    let loc: Point = Point { x: min(a.loc.x, b.loc.x), y: min(a.loc.y, b.loc.y) };
    let size: Size = Size {
        w: max(a.loc.x + a.size.w, b.loc.x + b.size.w) - loc.x,
        h: max(a.loc.y + a.size.h, b.loc.y + b.size.h) - loc.y,
    };
    Rectangle { loc, size }
}

/// What of a texture of `tex_size`, drawn to `dst`, has to be captured again
/// after `damage`, if that is less than all of it. `margin` is how far the
/// blur spreads. The texture is drawn pixel by pixel, so that damage is given
/// in the coordinates of the texture.
pub fn damage_capture_window(
    damage: &[Rectangle],
    dst: Rectangle,
    tex_size: Size,
    margin: i32,
) -> (r: Option<Rectangle>)
    requires
        forall|i: int| 0 <= i < damage@.len() ==> (#[trigger] damage@[i]).wf(),
        tex_size.wf(),
        0 <= margin,
        2 * margin <= i32::MAX,
    ensures
        r == capture_window(damage@, dst, tex_size, margin as int),
{
    let dw: i64 = dst.size.w as i64 - tex_size.w as i64;
    let dh: i64 = dst.size.h as i64 - tex_size.h as i64;
    if damage.len() == 0 || dw < -1 || dw > 1 || dh < -1 || dh > 1 {
        return None;
    }
    let full: Rectangle = Rectangle::from_size(tex_size);
    let mut window: Option<Rectangle> = None;
    let mut i: usize = 0;
    while i < damage.len()
        invariant
            forall|k: int| 0 <= k < damage@.len() ==> (#[trigger] damage@[k]).wf(),
            tex_size.wf(),
            full == Rectangle::of_size(tex_size),
            i <= damage@.len(),
            window == damage_bounds(damage@.take(i as int), full),
            window matches Some(w) ==> w.unclipped() && w.within(full),
        decreases damage@.len() - i,
    {
        assert(damage@.take(i + 1).drop_last() =~= damage@.take(i as int));
        match damage[i].intersection(full) {
            None => {},
            Some(d) => {
                window = match window {
                    None => Some(d),
                    Some(w) => Some(join(w, d)),
                };
            },
        }
        i = i + 1;
    }
    assert(damage@.take(i as int) =~= damage@);
    let damaged: Rectangle = match window {
        None => {
            return None;
        },
        Some(w) => w,
    };
    let window: Rectangle = match expand_rect(damaged, margin).intersection(full) {
        None => {
            return None;
        },
        Some(w) => w,
    };
    if window.is_empty() {
        return None;
    }
    proof {
        lemma_area_bounds(window.size);
        lemma_area_bounds(tex_size);
    }
    let part: u64 = window.size.w as u64 * window.size.h as u64;
    let whole: u64 = tex_size.w as u64 * tex_size.h as u64;
    if is_worth_partial(part, whole) {
        Some(window)
    } else {
        None
    }
}

proof fn lemma_area_bounds(size: Size)
    by (nonlinear_arith)
    requires
        size.wf(),
    ensures
        0 <= size.w * size.h <= 0x4000_0000_0000_0000,
{
}

/// For textures of up to `2^50` pixels the rounding does not matter: a part is
/// worth capturing if it is at most 85 percent of the whole.
pub proof fn lemma_worth_partial_exact(part: nat, whole: nat)
    requires
        0 < whole <= 0x4_0000_0000_0000,
        part <= whole,
    ensures
        worth_partial(part, whole) <==> 20 * part <= 17 * whole,
{
    lemma_float_exact(part);
    lemma_float_exact(whole);
}

/// Small integers are floating-point numbers.
proof fn lemma_float_exact(n: nat)
    requires
        n < significand_bound(),
    ensures
        float_nearest(n) == n,
{
    let step = float_step(n);
    assert(n / step == n && n % step == 0 && n * step == n) by (nonlinear_arith)
        requires
            step == 1,
    ;
}

/// All damage within the texture is within its bounds, and there are no bounds
/// if nothing of the texture is damaged.
pub proof fn lemma_damage_bounds_contain(damage: Seq<Rectangle>, tex_size: Size, i: int)
    requires
        tex_size.wf(),
        forall|k: int| 0 <= k < damage.len() ==> (#[trigger] damage[k]).wf(),
        0 <= i < damage.len(),
    ensures
        ({
            let full = Rectangle::of_size(tex_size);
            damage[i].common(full) matches Some(part) ==> (damage_bounds(
                damage,
                full,
            ) matches Some(bounds) && part.within(bounds))
        }),
    decreases damage.len(),
{
    let full = Rectangle::of_size(tex_size);
    let before = damage.drop_last();
    lemma_damage_bounds_wf(before, tex_size);
    if i < before.len() {
        assert(before[i] == damage[i]);
        lemma_damage_bounds_contain(before, tex_size, i);
    }
}

/// The bounds of damage lie within the texture.
pub proof fn lemma_damage_bounds_wf(damage: Seq<Rectangle>, tex_size: Size)
    requires
        tex_size.wf(),
        forall|k: int| 0 <= k < damage.len() ==> (#[trigger] damage[k]).wf(),
    ensures
        damage_bounds(damage, Rectangle::of_size(tex_size)) matches Some(bounds)
            ==> bounds.unclipped() && bounds.within(Rectangle::of_size(tex_size)),
    decreases damage.len(),
{
    if damage.len() > 0 {
        lemma_damage_bounds_wf(damage.drop_last(), tex_size);
    }
}

/// The bounds of damage are the smallest: they are within any rectangle that
/// all damage of the texture is within.
pub proof fn lemma_damage_bounds_least(
    damage: Seq<Rectangle>,
    tex_size: Size,
    outer: Rectangle,
)
    requires
        tex_size.wf(),
        forall|k: int| 0 <= k < damage.len() ==> (#[trigger] damage[k]).wf(),
        forall|k: int|
            0 <= k < damage.len() ==> ((#[trigger] damage[k]).common(
                Rectangle::of_size(tex_size),
            ) matches Some(part) ==> part.within(outer)),
    ensures
        damage_bounds(damage, Rectangle::of_size(tex_size)) matches Some(bounds)
            ==> bounds.within(outer),
    decreases damage.len(),
{
    if damage.len() > 0 {
        let before = damage.drop_last();
        assert forall|k: int| 0 <= k < before.len() implies (#[trigger] before[k]).wf() && (
        before[k].common(Rectangle::of_size(tex_size)) matches Some(part) ==> part.within(
            outer,
        )) by {
            assert(before[k] == damage[k]);
        }
        lemma_damage_bounds_least(before, tex_size, outer);
        lemma_damage_bounds_wf(before, tex_size);
        assert(damage.last() == damage[damage.len() - 1]);
    }
}

/// Damage that does not touch the texture leads to no window.
pub proof fn lemma_no_window_without_damage(
    damage: Seq<Rectangle>,
    dst: Rectangle,
    tex_size: Size,
    margin: int,
)
    requires
        forall|k: int|
            0 <= k < damage.len() ==> (#[trigger] damage[k]).common(Rectangle::of_size(tex_size))
                is None,
    ensures
        capture_window(damage, dst, tex_size, margin) is None,
{
    lemma_no_bounds_without_damage(damage, tex_size);
}

proof fn lemma_no_bounds_without_damage(damage: Seq<Rectangle>, tex_size: Size)
    requires
        forall|k: int|
            0 <= k < damage.len() ==> (#[trigger] damage[k]).common(Rectangle::of_size(tex_size))
                is None,
    ensures
        damage_bounds(damage, Rectangle::of_size(tex_size)) is None,
    decreases damage.len(),
{
    if damage.len() > 0 {
        let before = damage.drop_last();
        assert forall|k: int| 0 <= k < before.len() implies (#[trigger] before[k]).common(
            Rectangle::of_size(tex_size),
        ) is None by {
            assert(before[k] == damage[k]);
        }
        assert(damage.last() == damage[damage.len() - 1]);
        lemma_no_bounds_without_damage(before, tex_size);
    }
}

/// All damage of `a` to the texture is among `b`.
pub open spec fn damage_among(a: Seq<Rectangle>, b: Seq<Rectangle>, tex_size: Size) -> bool {
    forall|i: int|
        0 <= i < a.len() ==> b.contains(#[trigger] a[i]) || a[i].common(
            Rectangle::of_size(tex_size),
        ) is None
}

/// The bounds of damage that is among other damage are within the bounds of
/// that.
proof fn lemma_damage_among_bounds(a: Seq<Rectangle>, b: Seq<Rectangle>, tex_size: Size)
    requires
        tex_size.wf(),
        forall|k: int| 0 <= k < a.len() ==> (#[trigger] a[k]).wf(),
        forall|k: int| 0 <= k < b.len() ==> (#[trigger] b[k]).wf(),
        damage_among(a, b, tex_size),
    ensures
        damage_bounds(a, Rectangle::of_size(tex_size)) matches Some(inner) ==> (damage_bounds(
            b,
            Rectangle::of_size(tex_size),
        ) matches Some(outer) && inner.within(outer)),
{
    let full = Rectangle::of_size(tex_size);
    if damage_bounds(b, full) is None {
        assert forall|k: int| 0 <= k < a.len() implies (#[trigger] a[k]).common(full) is None by {
            if b.contains(a[k]) {
                let i = choose|i: int| 0 <= i < b.len() && b[i] == a[k];
                lemma_damage_bounds_contain(b, tex_size, i);
            }
        }
        lemma_no_bounds_without_damage(a, tex_size);
    } else {
        let outer = damage_bounds(b, full)->Some_0;
        assert forall|k: int| 0 <= k < a.len() implies ((#[trigger] a[k]).common(full) matches Some(
            part,
        ) ==> part.within(outer)) by {
            if b.contains(a[k]) {
                let i = choose|i: int| 0 <= i < b.len() && b[i] == a[k];
                lemma_damage_bounds_contain(b, tex_size, i);
            }
        }
        lemma_damage_bounds_least(a, tex_size, outer);
    }
}

/// Only which parts of the texture are damaged matters: the window stays the
/// same when damage is reordered, repeated, or joined by damage beside the
/// texture.
pub proof fn lemma_capture_window_by_damaged_parts(
    a: Seq<Rectangle>,
    b: Seq<Rectangle>,
    dst: Rectangle,
    tex_size: Size,
    margin: int,
)
    requires
        tex_size.wf(),
        forall|k: int| 0 <= k < a.len() ==> (#[trigger] a[k]).wf(),
        forall|k: int| 0 <= k < b.len() ==> (#[trigger] b[k]).wf(),
        damage_among(a, b, tex_size),
        damage_among(b, a, tex_size),
    ensures
        damage_bounds(a, Rectangle::of_size(tex_size)) == damage_bounds(
            b,
            Rectangle::of_size(tex_size),
        ),
        capture_window(a, dst, tex_size, margin) == capture_window(b, dst, tex_size, margin),
{
    lemma_damage_among_bounds(a, b, tex_size);
    lemma_damage_among_bounds(b, a, tex_size);
    lemma_damage_bounds_wf(a, tex_size);
    lemma_damage_bounds_wf(b, tex_size);
}

/// A window is a part of the texture that is not empty, and never all of it.
pub proof fn lemma_capture_window_is_part(
    damage: Seq<Rectangle>,
    dst: Rectangle,
    tex_size: Size,
    margin: int,
)
    requires
        tex_size.wf(),
        forall|k: int| 0 <= k < damage.len() ==> (#[trigger] damage[k]).wf(),
        0 <= margin,
        2 * margin <= i32::MAX,
    ensures
        capture_window(damage, dst, tex_size, margin) matches Some(window) ==> {
            &&& window.unclipped()
            &&& !window.empty()
            &&& window.within(Rectangle::of_size(tex_size))
            &&& window.clipped(Rectangle::of_size(tex_size)) == window
            &&& window != Rectangle::of_size(tex_size)
        },
{
    let full = Rectangle::of_size(tex_size);
    lemma_damage_bounds_wf(damage, tex_size);
    if let Some(window) = capture_window(damage, dst, tex_size, margin) {
        let grown = damage_bounds(damage, full)->Some_0.expanded(margin);
        lemma_clipped_to_size(grown, tex_size);
        let area = tex_size.area() as nat;
        assert(float_nearest(area) * 0x40_0000_0000_0000 >= 15312238733059687 * float_nearest(
            area,
        ));
    }
}

/// A window covers every pixel of the texture that is no further than the
/// margin from damage to the texture.
pub proof fn lemma_capture_window_covers(
    damage: Seq<Rectangle>,
    dst: Rectangle,
    tex_size: Size,
    margin: int,
    i: int,
    x: int,
    y: int,
)
    requires
        tex_size.wf(),
        forall|k: int| 0 <= k < damage.len() ==> (#[trigger] damage[k]).wf(),
        0 <= margin,
        tex_size.w + 2 * margin <= i32::MAX,
        tex_size.h + 2 * margin <= i32::MAX,
        0 <= i < damage.len(),
        0 <= x < tex_size.w,
        0 <= y < tex_size.h,
        damage[i].common(Rectangle::of_size(tex_size)) matches Some(part) && {
            &&& part.left() - margin <= x < part.right() + margin
            &&& part.top() - margin <= y < part.bottom() + margin
        },
    ensures
        capture_window(damage, dst, tex_size, margin) matches Some(window) ==> window.covers(x, y),
{
    lemma_damage_bounds_contain(damage, tex_size, i);
    lemma_damage_bounds_wf(damage, tex_size);
}

/// `d` damages the texture: it starts before the texture ends, and ends after
/// the texture starts, along both axes.
pub open spec fn damages(d: Rectangle, tex_size: Size) -> bool {
    &&& d.loc.x < tex_size.w && 0 < d.loc.x + d.size.w
    &&& d.loc.y < tex_size.h && 0 < d.loc.y + d.size.h
}

/// The bounds of damage, edge by edge. There are bounds exactly if something
/// damages the texture. None of the damage reaches further into the texture
/// than the bounds, and each edge of the bounds is the edge of some damage,
/// or that of the texture where the damage reaches beyond it.
pub proof fn lemma_damage_bounds_edges(damage: Seq<Rectangle>, tex_size: Size)
    requires
        tex_size.wf(),
        forall|k: int| 0 <= k < damage.len() ==> (#[trigger] damage[k]).wf(),
    ensures
        match damage_bounds(damage, Rectangle::of_size(tex_size)) {
            None => forall|k: int|
                0 <= k < damage.len() ==> !damages(#[trigger] damage[k], tex_size),
            Some(b) => {
                &&& 0 <= b.size.w && 0 <= b.size.h
                &&& forall|k: int|
                    0 <= k < damage.len() && damages(#[trigger] damage[k], tex_size) ==> {
                        let d = damage[k];
                        &&& b.loc.x <= max_int(0, d.loc.x as int)
                        &&& b.loc.y <= max_int(0, d.loc.y as int)
                        &&& min_int(tex_size.w as int, d.loc.x + d.size.w) <= b.loc.x + b.size.w
                        &&& min_int(tex_size.h as int, d.loc.y + d.size.h) <= b.loc.y + b.size.h
                    }
                &&& exists|k: int|
                    0 <= k < damage.len() && damages(#[trigger] damage[k], tex_size) && b.loc.x
                        == max_int(0, damage[k].loc.x as int)
                &&& exists|k: int|
                    0 <= k < damage.len() && damages(#[trigger] damage[k], tex_size) && b.loc.y
                        == max_int(0, damage[k].loc.y as int)
                &&& exists|k: int|
                    0 <= k < damage.len() && damages(#[trigger] damage[k], tex_size) && b.loc.x
                        + b.size.w == min_int(
                        tex_size.w as int,
                        damage[k].loc.x + damage[k].size.w,
                    )
                &&& exists|k: int|
                    0 <= k < damage.len() && damages(#[trigger] damage[k], tex_size) && b.loc.y
                        + b.size.h == min_int(
                        tex_size.h as int,
                        damage[k].loc.y + damage[k].size.h,
                    )
            },
        },
    decreases damage.len(),
{
    let full = Rectangle::of_size(tex_size);
    if damage.len() > 0 {
        let before = damage.drop_last();
        let last = damage.len() - 1;
        assert forall|k: int| 0 <= k < before.len() implies (#[trigger] before[k]).wf() by {
            assert(before[k] == damage[k]);
        }
        lemma_damage_bounds_edges(before, tex_size);
        lemma_damage_bounds_wf(before, tex_size);
        lemma_damage_bounds_wf(damage, tex_size);
        assert(damage.last() == damage[last]);
        lemma_common_edges(damage[last], full);
        assert(damages(damage[last], tex_size) <==> damage[last].common(full) is Some);
        match damage_bounds(before, full) {
            None => {
                assert forall|k: int| 0 <= k < last implies !damages(
                    #[trigger] damage[k],
                    tex_size,
                ) by {
                    assert(before[k] == damage[k]);
                }
                assert(damages(damage[last], tex_size) || !damages(damage[last], tex_size));
            },
            Some(b) => {
                assert forall|k: int| 0 <= k < last implies before[k] == #[trigger] damage[k] by {}
                let x = choose|k: int|
                    0 <= k < before.len() && damages(#[trigger] before[k], tex_size) && b.loc.x
                        == max_int(0, before[k].loc.x as int);
                let y = choose|k: int|
                    0 <= k < before.len() && damages(#[trigger] before[k], tex_size) && b.loc.y
                        == max_int(0, before[k].loc.y as int);
                let r = choose|k: int|
                    0 <= k < before.len() && damages(#[trigger] before[k], tex_size) && b.loc.x
                        + b.size.w == min_int(
                        tex_size.w as int,
                        before[k].loc.x + before[k].size.w,
                    );
                let t = choose|k: int|
                    0 <= k < before.len() && damages(#[trigger] before[k], tex_size) && b.loc.y
                        + b.size.h == min_int(
                        tex_size.h as int,
                        before[k].loc.y + before[k].size.h,
                    );
                assert(damages(damage[x], tex_size));
                assert(damages(damage[y], tex_size));
                assert(damages(damage[r], tex_size));
                assert(damages(damage[t], tex_size));
                assert(damages(damage[last], tex_size) || !damages(damage[last], tex_size));
            },
        }
    }
}

/// What is captured again, edge by edge: the bounds of the damage and the
/// margin around them, as far as the texture reaches. It is captured by itself
/// exactly if the texture is drawn at its own size, or one pixel off, if
/// something damages it, if there is anything within these edges, and if that
/// is worth it.
pub proof fn lemma_capture_window_edges(
    damage: Seq<Rectangle>,
    dst: Rectangle,
    tex_size: Size,
    margin: int,
)
    requires
        tex_size.wf(),
        forall|k: int| 0 <= k < damage.len() ==> (#[trigger] damage[k]).wf(),
        0 <= margin,
        tex_size.w + 2 * margin <= i32::MAX,
        tex_size.h + 2 * margin <= i32::MAX,
    ensures
        match damage_bounds(damage, Rectangle::of_size(tex_size)) {
            None => capture_window(damage, dst, tex_size, margin) is None,
            Some(b) => {
                let left = max_int(0, b.loc.x - margin);
                let top = max_int(0, b.loc.y - margin);
                let right = min_int(tex_size.w as int, b.loc.x + b.size.w + margin);
                let bottom = min_int(tex_size.h as int, b.loc.y + b.size.h + margin);
                &&& capture_window(damage, dst, tex_size, margin) is Some <==> {
                    &&& abs(dst.size.w - tex_size.w) <= 1
                    &&& abs(dst.size.h - tex_size.h) <= 1
                    &&& left < right
                    &&& top < bottom
                    &&& worth_partial(
                        ((right - left) * (bottom - top)) as nat,
                        (tex_size.w * tex_size.h) as nat,
                    )
                }
                &&& capture_window(damage, dst, tex_size, margin) matches Some(window) ==> {
                    &&& window.loc.x == left
                    &&& window.loc.y == top
                    &&& window.loc.x + window.size.w == right
                    &&& window.loc.y + window.size.h == bottom
                }
            },
        },
{
    let full = Rectangle::of_size(tex_size);
    lemma_damage_bounds_wf(damage, tex_size);
    match damage_bounds(damage, full) {
        None => {},
        Some(b) => {
            lemma_common_edges(b.expanded(margin), full);
            lemma_expanded_edges(b, margin);
        },
    }
}

/// For textures of up to `2^50` pixels a window is captured by itself only if
/// it has at most 85 percent of the pixels, and it is if there is such a window.
pub proof fn lemma_capture_window_is_worth_it(
    damage: Seq<Rectangle>,
    dst: Rectangle,
    tex_size: Size,
    margin: int,
)
    requires
        tex_size.wf(),
        forall|k: int| 0 <= k < damage.len() ==> (#[trigger] damage[k]).wf(),
        0 <= margin,
        tex_size.w + 2 * margin <= i32::MAX,
        tex_size.h + 2 * margin <= i32::MAX,
        tex_size.w * tex_size.h <= 0x4_0000_0000_0000,
    ensures
        match damage_bounds(damage, Rectangle::of_size(tex_size)) {
            None => capture_window(damage, dst, tex_size, margin) is None,
            Some(b) => {
                let w = min_int(tex_size.w as int, b.loc.x + b.size.w + margin) - max_int(
                    0,
                    b.loc.x - margin,
                );
                let h = min_int(tex_size.h as int, b.loc.y + b.size.h + margin) - max_int(
                    0,
                    b.loc.y - margin,
                );
                capture_window(damage, dst, tex_size, margin) is Some <==> {
                    &&& abs(dst.size.w - tex_size.w) <= 1
                    &&& abs(dst.size.h - tex_size.h) <= 1
                    &&& 0 < w
                    &&& 0 < h
                    &&& 20 * (w * h) <= 17 * (tex_size.w * tex_size.h)
                }
            },
        },
{
    let full = Rectangle::of_size(tex_size);
    lemma_damage_bounds_wf(damage, tex_size);
    lemma_capture_window_edges(damage, dst, tex_size, margin);
    if let Some(b) = damage_bounds(damage, full) {
        let w = min_int(tex_size.w as int, b.loc.x + b.size.w + margin) - max_int(
            0,
            b.loc.x - margin,
        );
        let h = min_int(tex_size.h as int, b.loc.y + b.size.h + margin) - max_int(
            0,
            b.loc.y - margin,
        );
        if 0 < w && 0 < h {
            let tw = tex_size.w;
            let th = tex_size.h;
            assert(0 < w * h <= tw * th) by (nonlinear_arith)
                requires
                    0 < w <= tw,
                    0 < h <= th,
            ;
            lemma_worth_partial_exact((w * h) as nat, (tw * th) as nat);
        }
    }
}

/// The floating-point numbers of a magnitude lie a power of two apart: whole
/// numbers up to `2^53` are their own, and beyond it there are `2^52` of them
/// for each power of two.
pub proof fn lemma_float_steps(n: nat)
    ensures
        float_step(n) >= 1,
        float_step(n) == 1 || float_step(n) % 2 == 0,
        n < 0x20_0000_0000_0000 ==> float_step(n) == 1,
        n >= 0x20_0000_0000_0000 ==> float_step(n) == 2 * float_step(n / 2),
        n >= 0x20_0000_0000_0000 ==> 0x10_0000_0000_0000 * float_step(n) <= n,
        n < 0x20_0000_0000_0000 * float_step(n),
    decreases n,
{
    if n >= 0x20_0000_0000_0000 {
        lemma_float_steps(n / 2);
    }
}

/// Rounding gives a floating-point number, none is closer, and of two that are
/// equally close it is the one with the even significand.
pub proof fn lemma_float_nearest_closest(n: nat)
    ensures
        float_nearest(n) % float_step(n) == 0,
        2 * abs(float_nearest(n) - n) <= float_step(n),
        2 * abs(float_nearest(n) - n) == float_step(n) ==> (float_nearest(n) / float_step(n)) % 2
            == 0,
{
    let step = float_step(n);
    lemma_float_steps(n);
    let below = n / step;
    let rest = n % step;
    vstd::arithmetic::div_mod::lemma_fundamental_div_mod(n as int, step as int);
    vstd::arithmetic::div_mod::lemma_mod_bound(n as int, step as int);
    assert(below * step == step * below) by (nonlinear_arith);
    assert((below + 1) * step == step * below + step) by (nonlinear_arith);
    vstd::arithmetic::div_mod::lemma_mod_multiples_basic(below as int, step as int);
    vstd::arithmetic::div_mod::lemma_mod_multiples_basic((below + 1) as int, step as int);
    vstd::arithmetic::div_mod::lemma_div_by_multiple(below as int, step as int);
    vstd::arithmetic::div_mod::lemma_div_by_multiple((below + 1) as int, step as int);
}

/// Whatever the size, the rounding matters little: a part that is worth
/// capturing is hardly more than 85 percent of the whole, and one that is not is
/// hardly less.
pub proof fn lemma_worth_partial_close(part: nat, whole: nat)
    ensures
        worth_partial(part, whole) ==> 20 * (part * 0x3_ffff_ffff_ffff) <= 17 * (whole
            * 0x4_0000_0000_0001),
        !worth_partial(part, whole) ==> 20 * (part * 0x4_0000_0000_0001) >= 17 * (whole
            * 0x3_ffff_ffff_ffff),
{
    lemma_float_steps(part);
    lemma_float_steps(whole);
    lemma_float_nearest_closest(part);
    lemma_float_nearest_closest(whole);
    if part < 0x20_0000_0000_0000 {
        lemma_float_exact(part);
    }
    if whole < 0x20_0000_0000_0000 {
        lemma_float_exact(whole);
    }
}

} // verus!
