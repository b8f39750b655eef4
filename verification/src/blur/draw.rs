//! Drawing a blurred backdrop.

use crate::geometry::{lemma_common_pixels, Rectangle};
use vstd::prelude::*;
use vstd::seq_lib::lemma_flatten_concat;

verus! {

/// What is kept of the texture that holds a blurred backdrop.
#[derive(Clone, Copy, Debug, PartialEq, Eq, Structural)]
pub enum TextureSlot {
    /// The backdrop has never been captured.
    Missing,
    /// There is a place for the texture, but no texture.
    Empty,
    /// There is a texture.
    Present,
}

/// Why a backdrop cannot be drawn.
#[derive(Clone, Copy, Debug, PartialEq, Eq, Structural)]
pub enum DrawError {
    /// The backdrop has never been captured.
    NotCaptured,
}

/// The values that are there, in their order.
pub open spec fn present<T>(options: Seq<Option<T>>) -> Seq<T>
    decreases options.len(),
{
    if options.len() == 0 {
        Seq::empty()
    } else {
        match options.last() {
            Some(value) => present(options.drop_last()).push(value),
            None => present(options.drop_last()),
        }
    }
}

/// The parts of `damage` within `rect`, in their order.
pub open spec fn damage_within(rect: Rectangle, damage: Seq<Rectangle>) -> Seq<Rectangle> {
    present(damage.map_values(|d: Rectangle| d.common(rect)))
}

/// The parts of `damage` within each of `rects`, one of `rects` after the
/// other.
pub open spec fn drawn_damage(rects: Seq<Rectangle>, damage: Seq<Rectangle>) -> Seq<Rectangle> {
    rects.map_values(|rect: Rectangle| damage_within(rect, damage)).flatten()
}

pub open spec fn all_wf(rects: Seq<Rectangle>) -> bool {
    forall|i: int| 0 <= i < rects.len() ==> (#[trigger] rects[i]).wf()
}

/// The parts of `damage` within the shown parts `rects` of a backdrop.
pub fn draw_damage(rects: &[Rectangle], damage: &[Rectangle]) -> (r: Vec<Rectangle>)
    requires
        all_wf(rects@),
        all_wf(damage@),
    ensures
        r@ == drawn_damage(rects@, damage@),
{
    let mut r: Vec<Rectangle> = Vec::new();
    let mut i: usize = 0;
    while i < rects.len()
        invariant
            all_wf(rects@),
            all_wf(damage@),
            i <= rects@.len(),
            r@ == drawn_damage(rects@.take(i as int), damage@),
        decreases rects@.len() - i,
    {
        let rect: Rectangle = rects[i];
        let mut k: usize = 0;
        while k < damage.len()
            invariant
                rect.wf(),
                all_wf(damage@),
                k <= damage@.len(),
                r@ == drawn_damage(rects@.take(i as int), damage@) + damage_within(
                    rect,
                    damage@.take(k as int),
                ),
            decreases damage@.len() - k,
        {
            proof {
                let common = |d: Rectangle| d.common(rect);
                assert(damage@.take(k + 1).map_values(common).drop_last() =~= damage@.take(
                    k as int,
                ).map_values(common));
            }
            match damage[k].intersection(rect) {
                Some(part) => {
                    r.push(part);
                },
                None => {},
            }
            assert(r@ =~= drawn_damage(rects@.take(i as int), damage@) + damage_within(
                rect,
                damage@.take(k + 1),
            ));
            k = k + 1;
        }
        assert(damage@.take(k as int) =~= damage@);
        proof {
            let within = |rect: Rectangle| damage_within(rect, damage@);
            let before = rects@.take(i as int).map_values(within);
            before.lemma_flatten_push(damage_within(rect, damage@));
            assert(rects@.take(i + 1).map_values(within) =~= before.push(
                damage_within(rect, damage@),
            ));
        }
        i = i + 1;
    }
    assert(rects@.take(i as int) =~= rects@);
    r
}

/// What becomes of drawing a backdrop whose texture is in `slot`.
pub open spec fn draw_outcome(
    slot: TextureSlot,
    rects: Seq<Rectangle>,
    damage: Seq<Rectangle>,
) -> Result<Option<Seq<Rectangle>>, DrawError> {
    match slot {
        TextureSlot::Missing => Err(DrawError::NotCaptured),
        TextureSlot::Empty => Ok(None),
        TextureSlot::Present => Ok(Some(drawn_damage(rects, damage))),
    }
}

/// What to draw of a backdrop whose texture is in `slot`: the damaged parts of
/// the shown parts `rects`, if there is a texture.
pub fn draw(slot: TextureSlot, rects: &[Rectangle], damage: &[Rectangle]) -> (r: Result<
    Option<Vec<Rectangle>>,
    DrawError,
>)
    requires
        all_wf(rects@),
        all_wf(damage@),
    ensures
        match r {
            Err(DrawError::NotCaptured) => slot == TextureSlot::Missing,
            Ok(None) => slot == TextureSlot::Empty,
            Ok(Some(drawn)) => slot == TextureSlot::Present && drawn@ == drawn_damage(
                rects@,
                damage@,
            ),
        },
        match r {
            Err(error) => draw_outcome(slot, rects@, damage@) == Err::<
                Option<Seq<Rectangle>>,
                DrawError,
            >(error),
            Ok(None) => draw_outcome(slot, rects@, damage@) == Ok::<
                Option<Seq<Rectangle>>,
                DrawError,
            >(None),
            Ok(Some(drawn)) => draw_outcome(slot, rects@, damage@) == Ok::<
                Option<Seq<Rectangle>>,
                DrawError,
            >(Some(drawn@)),
        },
{
    match slot {
        TextureSlot::Missing => Err(DrawError::NotCaptured),
        TextureSlot::Empty => Ok(None),
        TextureSlot::Present => Ok(Some(draw_damage(rects, damage))),
    }
}

proof fn lemma_present_contains<T>(options: Seq<Option<T>>, i: int)
    requires
        0 <= i < options.len(),
        options[i] is Some,
    ensures
        present(options).contains(options[i]->Some_0),
    decreases options.len(),
{
    let value = options[i]->Some_0;
    let before = options.drop_last();
    if i < before.len() {
        lemma_present_contains(before, i);
        let n = choose|n: int| 0 <= n < present(before).len() && present(before)[n] == value;
        assert(present(options)[n] == value);
    } else {
        assert(present(options).last() == value);
    }
}

proof fn lemma_present_origin<T>(options: Seq<Option<T>>, value: T) -> (i: int)
    requires
        present(options).contains(value),
    ensures
        0 <= i < options.len(),
        options[i] == Some(value),
    decreases options.len(),
{
    let n = choose|n: int| 0 <= n < present(options).len() && present(options)[n] == value;
    let before = options.drop_last();
    if n < present(before).len() {
        assert(present(before)[n] == value);
        lemma_present_origin(before, value)
    } else {
        options.len() - 1
    }
}

proof fn lemma_flatten_contains<T>(rows: Seq<Seq<T>>, i: int, value: T)
    requires
        0 <= i < rows.len(),
        rows[i].contains(value),
    ensures
        rows.flatten().contains(value),
    decreases rows.len(),
{
    let rest = rows.drop_first();
    let n = choose|n: int| 0 <= n < rows[i].len() && rows[i][n] == value;
    if i == 0 {
        assert(rows.flatten()[n] == value);
    } else {
        assert(rest[i - 1] == rows[i]);
        lemma_flatten_contains(rest, i - 1, value);
        let m = choose|m: int| 0 <= m < rest.flatten().len() && rest.flatten()[m] == value;
        assert(rows.flatten()[rows.first().len() + m] == value);
    }
}

proof fn lemma_flatten_origin<T>(rows: Seq<Seq<T>>, value: T) -> (i: int)
    requires
        rows.flatten().contains(value),
    ensures
        0 <= i < rows.len(),
        rows[i].contains(value),
    decreases rows.len(),
{
    let rest = rows.drop_first();
    let n = choose|n: int| 0 <= n < rows.flatten().len() && rows.flatten()[n] == value;
    if n < rows.first().len() {
        assert(rows[0][n] == value);
        0
    } else {
        assert(rest.flatten()[n - rows.first().len()] == value);
        let i = lemma_flatten_origin(rest, value);
        i + 1
    }
}

/// Nothing is drawn but damage to a shown part.
pub proof fn lemma_drawn_is_damaged(
    rects: Seq<Rectangle>,
    damage: Seq<Rectangle>,
    part: Rectangle,
)
    requires
        drawn_damage(rects, damage).contains(part),
    ensures
        exists|i: int, k: int|
            0 <= i < rects.len() && 0 <= k < damage.len() && #[trigger] damage[k].common(
                #[trigger] rects[i],
            ) == Some(part),
{
    let rows = rects.map_values(|rect: Rectangle| damage_within(rect, damage));
    let i = lemma_flatten_origin(rows, part);
    let k = lemma_present_origin(damage.map_values(|d: Rectangle| d.common(rects[i])), part);
    assert(damage[k].common(rects[i]) == Some(part));
}

/// All damage to a shown part is drawn.
pub proof fn lemma_damage_is_drawn(
    rects: Seq<Rectangle>,
    damage: Seq<Rectangle>,
    i: int,
    k: int,
)
    requires
        0 <= i < rects.len(),
        0 <= k < damage.len(),
        damage[k].common(rects[i]) is Some,
    ensures
        drawn_damage(rects, damage).contains(damage[k].common(rects[i])->Some_0),
{
    let options = damage.map_values(|d: Rectangle| d.common(rects[i]));
    lemma_present_contains(options, k);
    let rows = rects.map_values(|rect: Rectangle| damage_within(rect, damage));
    assert(rows[i] == damage_within(rects[i], damage));
    lemma_flatten_contains(rows, i, options[k]->Some_0);
}

/// The shown parts are drawn one after the other: what is drawn of two lists of
/// them is what is drawn of the first, and then what is drawn of the second.
pub proof fn lemma_shown_parts_in_turn(
    first: Seq<Rectangle>,
    second: Seq<Rectangle>,
    damage: Seq<Rectangle>,
)
    ensures
        drawn_damage(first + second, damage) == drawn_damage(first, damage) + drawn_damage(
            second,
            damage,
        ),
{
    let within = |rect: Rectangle| damage_within(rect, damage);
    assert((first + second).map_values(within) =~= first.map_values(within) + second.map_values(
        within,
    ));
    lemma_flatten_concat(first.map_values(within), second.map_values(within));
}

proof fn lemma_present_concat<T>(first: Seq<Option<T>>, second: Seq<Option<T>>)
    ensures
        present(first + second) == present(first) + present(second),
    decreases second.len(),
{
    if second.len() == 0 {
        assert(first + second =~= first);
    } else {
        lemma_present_concat(first, second.drop_last());
        assert((first + second).drop_last() =~= first + second.drop_last());
    }
}

/// Within one shown part the damage is drawn in its order.
pub proof fn lemma_damage_in_turn(
    rect: Rectangle,
    first: Seq<Rectangle>,
    second: Seq<Rectangle>,
)
    ensures
        drawn_damage(seq![rect], first + second) == drawn_damage(seq![rect], first) + drawn_damage(
            seq![rect],
            second,
        ),
{
    let common = |d: Rectangle| d.common(rect);
    assert((first + second).map_values(common) =~= first.map_values(common) + second.map_values(
        common,
    ));
    lemma_present_concat(first.map_values(common), second.map_values(common));
    lemma_one_shown_part(rect, first);
    lemma_one_shown_part(rect, second);
    lemma_one_shown_part(rect, first + second);
}

proof fn lemma_one_shown_part(rect: Rectangle, damage: Seq<Rectangle>)
    ensures
        drawn_damage(seq![rect], damage) == damage_within(rect, damage),
{
    let within = |rect: Rectangle| damage_within(rect, damage);
    let rows = seq![rect].map_values(within);
    assert(rows =~= seq![damage_within(rect, damage)]);
    rows.lemma_flatten_one_element();
}

/// Of one piece of damage to one shown part the pixels that belong to both are
/// drawn, in one rectangle, and nothing if there are none.
pub proof fn lemma_drawn_pixels(rect: Rectangle, damage: Rectangle, x: int, y: int)
    requires
        rect.wf(),
        damage.wf(),
        x < i32::MAX,
        y < i32::MAX,
    ensures
        ({
            let drawn = drawn_damage(seq![rect], seq![damage]);
            let in_both = {
                &&& rect.loc.x <= x < rect.loc.x + rect.size.w
                &&& rect.loc.y <= y < rect.loc.y + rect.size.h
                &&& damage.loc.x <= x < damage.loc.x + damage.size.w
                &&& damage.loc.y <= y < damage.loc.y + damage.size.h
            };
            &&& drawn.len() <= 1
            &&& drawn.len() == 0 ==> !in_both
            &&& drawn.len() == 1 ==> (in_both <==> {
                &&& drawn[0].loc.x <= x < drawn[0].loc.x + drawn[0].size.w
                &&& drawn[0].loc.y <= y < drawn[0].loc.y + drawn[0].size.h
            })
        }),
{
    lemma_one_shown_part(rect, seq![damage]);
    let options = seq![damage].map_values(|d: Rectangle| d.common(rect));
    assert(options.last() == damage.common(rect));
    assert(options.drop_last() =~= Seq::<Option<Rectangle>>::empty());
    reveal_with_fuel(present, 3);
    lemma_common_pixels(damage, rect, x, y);
}

/// Nothing is drawn if nothing is damaged, or if nothing is shown.
pub proof fn lemma_nothing_drawn(rects: Seq<Rectangle>, damage: Seq<Rectangle>)
    ensures
        rects.len() == 0 ==> drawn_damage(rects, damage).len() == 0,
        damage.len() == 0 ==> drawn_damage(rects, damage).len() == 0,
{
    if damage.len() == 0 && drawn_damage(rects, damage).len() > 0 {
        assert(drawn_damage(rects, damage).contains(drawn_damage(rects, damage)[0]));
        lemma_drawn_is_damaged(rects, damage, drawn_damage(rects, damage)[0]);
    }
    if rects.len() == 0 && drawn_damage(rects, damage).len() > 0 {
        assert(drawn_damage(rects, damage).contains(drawn_damage(rects, damage)[0]));
        lemma_drawn_is_damaged(rects, damage, drawn_damage(rects, damage)[0]);
    }
}

/// Drawing fails exactly if the backdrop has never been captured, whatever is
/// damaged. It draws exactly if there is a texture, and then the damage to the
/// shown parts. Without a texture there is nothing to draw, which is no failure.
pub proof fn lemma_drawing_needs_capture(
    slot: TextureSlot,
    rects: Seq<Rectangle>,
    damage: Seq<Rectangle>,
)
    ensures
        ({
            let outcome = draw_outcome(slot, rects, damage);
            &&& outcome is Err <==> slot == TextureSlot::Missing
            &&& outcome matches Ok(drawn) ==> (drawn is Some <==> slot == TextureSlot::Present)
            &&& outcome matches Ok(Some(drawn)) ==> drawn == drawn_damage(rects, damage)
        }),
{
}

} // verus!
