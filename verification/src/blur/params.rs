//! How strongly to blur: the passes and sampling distances of each strength.

use crate::blur::offset::{ceil_div, lemma_ceil_div, BlurOffset};
use vstd::arithmetic::power2::{lemma2_to64, pow2};
use vstd::math::min;
use vstd::prelude::*;

verus! {

/// The number of blur strengths.
pub const MAX_STEPS: usize = 15;

/// The number of passes of the strongest blur.
pub const MAX_LEVELS: usize = 4;

/// How to blur at one strength.
#[derive(Clone, Copy, Debug)]
pub struct BlurParameters {
    /// How often the texture is halved and doubled again.
    pub passes: usize,
    /// The distance at which the shaders sample.
    pub offset: BlurOffset,
    /// How far beyond an element its surroundings are captured, to avoid
    /// artifacts at its edges.
    pub extended_radius: i32,
}

/// The smallest and the largest offset that are used with `row + 1` passes,
/// and the extended radius that goes with them.
pub open spec fn offset_row(row: nat) -> (int, int, int) {
    if row == 0 {
        (1, 2, 10)
    } else if row == 1 {
        (2, 3, 20)
    } else if row == 2 {
        (2, 5, 50)
    } else {
        (3, 8, 150)
    }
}

/// The range of offsets of a row.
pub open spec fn offset_span(row: nat) -> int {
    offset_row(row).1 - offset_row(row).0
}

/// The ranges of all rows together.
pub open spec fn total_span() -> int {
    offset_span(0) + offset_span(1) + offset_span(2) + offset_span(3)
}

/// The share of the steps that a row has by its range, rounded up.
pub open spec fn row_share(row: nat) -> int {
    ceil_div(offset_span(row) * MAX_STEPS, total_span())
}

/// What the shares of the first `rows` rows leave of the steps.
pub open spec fn steps_left(rows: nat) -> int
    decreases rows,
{
    if rows == 0 {
        MAX_STEPS as int
    } else {
        steps_left((rows - 1) as nat) - row_share((rows - 1) as nat)
    }
}

/// The number of steps of a row: its share, as far as there are steps left.
pub open spec fn row_steps(row: nat) -> int {
    if row_share(row) <= steps_left(row) {
        row_share(row)
    } else if steps_left(row) > 0 {
        steps_left(row)
    } else {
        0
    }
}

/// The parameters of a row: the offsets go up to the largest one in equal
/// steps.
pub open spec fn row_params(row: nat) -> Seq<BlurParameters> {
    Seq::new(
        row_steps(row) as nat,
        |j: int|
            BlurParameters {
                passes: (row + 1) as usize,
                offset: BlurOffset {
                    num: (offset_row(row).0 * row_steps(row) + offset_span(row) * (j + 1)) as u32,
                    den: row_steps(row) as u32,
                },
                extended_radius: offset_row(row).2 as i32,
            },
    )
}

/// The parameters of the first `rows` rows.
pub open spec fn params_of_rows(rows: nat) -> Seq<BlurParameters>
    decreases rows,
{
    if rows == 0 {
        Seq::empty()
    } else {
        params_of_rows((rows - 1) as nat) + row_params((rows - 1) as nat)
    }
}

/// The parameters of all strengths, from the weakest to the strongest.
pub open spec fn blur_table() -> Seq<BlurParameters> {
    params_of_rows(MAX_LEVELS as nat)
}

/// The parameters of a strength; those of the strongest one for any beyond it.
pub open spec fn params_for(strength: int) -> BlurParameters {
    blur_table()[if strength < MAX_STEPS {
        strength
    } else {
        MAX_STEPS - 1
    }]
}

/// How far beyond an element its surroundings are captured: the radius of two
/// strengths further up.
pub open spec fn radius_for(strength: int) -> int {
    params_for(strength + 2).extended_radius as int
}

proof fn lemma_row_steps()
    ensures
        total_span() == 10,
        row_share(0) == 2,
        row_share(1) == 2,
        row_share(2) == 5,
        row_share(3) == 8,
        steps_left(0) == 15,
        steps_left(1) == 13,
        steps_left(2) == 11,
        steps_left(3) == 6,
        steps_left(4) == -2,
        row_steps(0) == 2,
        row_steps(1) == 2,
        row_steps(2) == 5,
        row_steps(3) == 6,
{
    reveal_with_fuel(steps_left, 5);
}

/// The table lists every strength once.
pub proof fn lemma_table_has_all_steps()
    ensures
        blur_table().len() == MAX_STEPS,
{
    lemma_row_steps();
    reveal_with_fuel(params_of_rows, 5);
}

/// The offsets and the radius that are used with `row + 1` passes.
fn offsets(row: usize) -> (r: (u32, u32, i32))
    requires
        row < MAX_LEVELS,
    ensures
        r.0 == offset_row(row as nat).0,
        r.1 == offset_row(row as nat).1,
        r.2 == offset_row(row as nat).2,
        r.0 < r.1 <= 8,
{
    if row == 0 {
        (1, 2, 10)
    } else if row == 1 {
        (2, 3, 20)
    } else if row == 2 {
        (2, 5, 50)
    } else {
        (3, 8, 150)
    }
}

/// The parameters of all strengths, from the weakest to the strongest.
pub fn blur_params() -> (params: Vec<BlurParameters>)
    ensures
        params@ == blur_table(),
        params.len() == MAX_STEPS,
{
    let mut params: Vec<BlurParameters> = Vec::new();
    let mut sum: u32 = 0;
    let mut row: usize = 0;
    while row < MAX_LEVELS
        invariant
            row <= MAX_LEVELS,
            0 <= sum <= 8 * row,
            row == 0 ==> sum == 0,
            row == 1 ==> sum == offset_span(0),
            row == 2 ==> sum == offset_span(0) + offset_span(1),
            row == 3 ==> sum == offset_span(0) + offset_span(1) + offset_span(2),
            row == 4 ==> sum == total_span(),
        decreases MAX_LEVELS - row,
    {
        let (min, max, _) = offsets(row);
        sum = sum + (max - min);
        row = row + 1;
    }
    let mut remaining_steps: i32 = MAX_STEPS as i32;
    let mut i: usize = 0;
    proof {
        lemma_row_steps();
    }
    while i < MAX_LEVELS
        invariant
            i <= MAX_LEVELS,
            sum == total_span() == 10,
            remaining_steps == steps_left(i as nat),
            params@ == params_of_rows(i as nat),
        decreases MAX_LEVELS - i,
    {
        proof {
            lemma_row_steps();
        }
        let (min, max, extended_radius) = offsets(i);
        let diff: u32 = max - min;
        let share: u32 = (diff * MAX_STEPS as u32 + (sum - 1)) / sum;
        assert(share == row_share(i as nat));
        remaining_steps = remaining_steps - share as i32;
        let iter_num: u32 = if remaining_steps >= 0 {
            share
        } else if share as i32 + remaining_steps > 0 {
            (share as i32 + remaining_steps) as u32
        } else {
            0
        };
        assert(iter_num == row_steps(i as nat));
        let mut j: u32 = 1;
        while j <= iter_num
            invariant
                i < MAX_LEVELS,
                iter_num == row_steps(i as nat),
                1 <= j <= iter_num + 1,
                iter_num <= 15,
                min == offset_row(i as nat).0,
                max == offset_row(i as nat).1,
                extended_radius == offset_row(i as nat).2,
                min < max <= 8,
                diff == max - min,
                params@ == params_of_rows(i as nat) + row_params(i as nat).take(j - 1),
            decreases iter_num + 1 - j,
        {
            assert(0 <= min * iter_num <= 120) by (nonlinear_arith)
                requires
                    0 <= min <= 8,
                    0 <= iter_num <= 15,
            ;
            assert(0 <= diff * j <= 120) by (nonlinear_arith)
                requires
                    0 <= diff <= 8,
                    0 <= j <= 15,
            ;
            params.push(
                BlurParameters {
                    passes: i + 1,
                    offset: BlurOffset { num: min * iter_num + diff * j, den: iter_num },
                    extended_radius,
                },
            );
            assert(row_params(i as nat).take(j as int) =~= row_params(i as nat).take(j - 1).push(
                row_params(i as nat)[j - 1],
            ));
            assert(params@ =~= params_of_rows(i as nat) + row_params(i as nat).take(j as int));
            j = j + 1;
        }
        assert(row_params(i as nat).take(iter_num as int) =~= row_params(i as nat));
        i = i + 1;
    }
    proof {
        lemma_table_has_all_steps();
    }
    params
}

/// The parameters of a strength.
pub fn parameters(strength: usize) -> (r: BlurParameters)
    ensures
        r == params_for(strength as int),
{
    let params: Vec<BlurParameters> = blur_params();
    if strength < MAX_STEPS {
        params[strength]
    } else {
        params[MAX_STEPS - 1]
    }
}

/// How far beyond an element its surroundings are captured.
pub fn extended_radius(strength: usize) -> (r: i32)
    requires
        strength + 2 <= usize::MAX,
    ensures
        r == radius_for(strength as int),
{
    parameters(strength + 2).extended_radius
}

/// How far around damage a partial update reaches: one and a half times the
/// offset for each pass, in whole pixels, and a few pixels more.
pub open spec fn capture_margin(passes: int, offset: BlurOffset) -> int {
    ceil_div(3 * (passes * offset.num), 2 * offset.den) + 4
}

/// The entries of the table.
proof fn lemma_table_entry(step: int)
    requires
        0 <= step < MAX_STEPS,
    ensures
        ({
            let entry = blur_table()[step];
            let num = entry.offset.num;
            let den = entry.offset.den;
            let radius = entry.extended_radius;
            &&& step < 2 ==> entry.passes == 1 && num == 3 + step && den == 2 && radius == 10
            &&& 2 <= step < 4 ==> entry.passes == 2 && num == 3 + step && den == 2 && radius == 20
            &&& 4 <= step < 9 ==> entry.passes == 3 && num == 1 + 3 * step && den == 5 && radius
                == 50
            &&& 9 <= step ==> entry.passes == 4 && num == 5 * step - 22 && den == 6 && radius
                == 150
        }),
{
    lemma_row_steps();
    reveal_with_fuel(params_of_rows, 5);
    assert(step < 2 ==> blur_table()[step] == row_params(0)[step]);
    assert(2 <= step < 4 ==> blur_table()[step] == row_params(1)[step - 2]);
    assert(4 <= step < 9 ==> blur_table()[step] == row_params(2)[step - 4]);
    assert(9 <= step ==> blur_table()[step] == row_params(3)[step - 9]);
    assert(offset_span(0) * (step + 1) == step + 1) by (nonlinear_arith)
        requires
            offset_span(0) == 1,
    ;
    assert(offset_span(1) * (step - 1) == step - 1) by (nonlinear_arith)
        requires
            offset_span(1) == 1,
    ;
    assert(offset_span(2) * (step - 3) == 3 * step - 9) by (nonlinear_arith)
        requires
            offset_span(2) == 3,
    ;
    assert(offset_span(3) * (step - 8) == 5 * step - 40) by (nonlinear_arith)
        requires
            offset_span(3) == 5,
    ;
}

/// The parameters of every strength are usable: there is a pass, not more than
/// the strongest blur has, the offset is a fraction greater than zero, and the
/// pads around a window fit.
pub proof fn lemma_params_usable(strength: int)
    requires
        strength >= 0,
    ensures
        1 <= params_for(strength).passes <= MAX_LEVELS,
        params_for(strength).offset.wf(),
        params_for(strength).offset.num > 0,
        params_for(strength).offset.pads_fit(),
        10 <= params_for(strength).extended_radius <= 150,
        10 <= radius_for(strength) <= 150,
{
    lemma2_to64();
    let step = if strength < MAX_STEPS {
        strength
    } else {
        MAX_STEPS - 1
    };
    lemma_table_entry(step);
    let further = if strength + 2 < MAX_STEPS {
        strength + 2
    } else {
        MAX_STEPS - 1
    };
    lemma_table_entry(further);
    let offset = blur_table()[step].offset;
    assert(offset.den * pow2(1) == 2 * offset.den) by (nonlinear_arith)
        requires
            pow2(1) == 2,
    ;
    assert(offset.pad(0) == ceil_div(offset.num as int, 2 * offset.den) + 1);
}

/// A greater strength never blurs less: it takes more passes, or as many with
/// a greater offset.
pub proof fn lemma_strengths_ordered(weaker: int, stronger: int)
    requires
        0 <= weaker < stronger < MAX_STEPS,
    ensures
        ({
            let a = params_for(weaker);
            let b = params_for(stronger);
            &&& a.extended_radius <= b.extended_radius
            &&& {
                ||| a.passes < b.passes
                ||| a.passes == b.passes && a.offset.num * b.offset.den < b.offset.num
                    * a.offset.den
            }
        }),
{
    lemma_table_entry(weaker);
    lemma_table_entry(stronger);
}

/// What a partial update reaches around damage stays within the captured
/// surroundings of the element.
pub proof fn lemma_margin_within_radius(strength: int)
    requires
        strength >= 0,
    ensures
        4 < capture_margin(
            params_for(strength).passes as int,
            params_for(strength).offset,
        ) <= radius_for(strength),
{
    let step = if strength < MAX_STEPS {
        strength
    } else {
        MAX_STEPS - 1
    };
    lemma_table_entry(step);
    let further = if strength + 2 < MAX_STEPS {
        strength + 2
    } else {
        MAX_STEPS - 1
    };
    lemma_table_entry(further);
    let params = params_for(strength);
    let passes = params.passes;
    let num = params.offset.num;
    let d = 2 * params.offset.den;
    assert(passes * num == (if passes == 1 {
        num as int
    } else if passes == 2 {
        2 * num
    } else if passes == 3 {
        3 * num
    } else {
        4 * num
    })) by (nonlinear_arith)
        requires
            1 <= passes <= 4,
    ;
    let c = ceil_div(3 * (passes * num), d);
    lemma_ceil_div(3 * (passes * num), d);
    assert((c - 1) * d == (if d == 4 {
        4 * (c - 1)
    } else if d == 10 {
        10 * (c - 1)
    } else {
        12 * (c - 1)
    })) by (nonlinear_arith)
        requires
            d == 4 || d == 10 || d == 12,
    ;
}

/// The parameters of every strength, in numbers. The first two strengths take
/// one pass with offsets up to 2, the next two take two with offsets up to 3,
/// the next five take three with offsets up to 5, and all others take four with
/// offsets up to 8. Within each of these the offsets go up evenly.
pub proof fn lemma_strength_numbers(strength: int)
    requires
        strength >= 0,
    ensures
        ({
            let params = params_for(strength);
            let num = params.offset.num;
            let den = params.offset.den;
            &&& den > 0
            &&& strength < 2 ==> {
                &&& params.passes == 1
                &&& 2 * num == (3 + strength) * den
                &&& params.extended_radius == 10
            }
            &&& 2 <= strength < 4 ==> {
                &&& params.passes == 2
                &&& 2 * num == (3 + strength) * den
                &&& params.extended_radius == 20
            }
            &&& 4 <= strength < 9 ==> {
                &&& params.passes == 3
                &&& 5 * num == (1 + 3 * strength) * den
                &&& params.extended_radius == 50
            }
            &&& 9 <= strength ==> params.passes == 4 && params.extended_radius == 150
            &&& 9 <= strength < 15 ==> 6 * num == (5 * strength - 22) * den
            &&& 15 <= strength ==> num == 8 * den
        }),
{
    let step = if strength < MAX_STEPS {
        strength
    } else {
        MAX_STEPS - 1
    };
    lemma_table_entry(step);
    let params = params_for(strength);
    assert(params == blur_table()[step]);
    let den = params.offset.den;
    if strength < 4 {
        assert((3 + strength) * den == 2 * (3 + strength)) by (nonlinear_arith)
            requires
                den == 2,
        ;
    } else if strength < 9 {
        assert((1 + 3 * strength) * den == 5 * (1 + 3 * strength)) by (nonlinear_arith)
            requires
                den == 5,
        ;
    } else {
        assert((5 * strength - 22) * den == 6 * (5 * strength - 22)) by (nonlinear_arith)
            requires
                den == 6,
        ;
    }
}

/// The parameters of a strength are, in every field, the entry of the table at
/// that place, and those of the last entry for any strength beyond it.
pub proof fn lemma_strength_is_table_entry(strength: int, entry: int)
    requires
        0 <= strength,
        entry == min(strength, blur_table().len() - 1),
    ensures
        blur_table().len() == 15,
        params_for(strength).passes == blur_table()[entry].passes,
        params_for(strength).offset.num == blur_table()[entry].offset.num,
        params_for(strength).offset.den == blur_table()[entry].offset.den,
        params_for(strength).extended_radius == blur_table()[entry].extended_radius,
{
    lemma_table_has_all_steps();
}

/// How far beyond an element its surroundings are captured, in numbers: as far
/// as two strengths further up.
pub proof fn lemma_radius_numbers(strength: int)
    requires
        strength >= 0,
    ensures
        radius_for(strength) == params_for(strength + 2).extended_radius,
        strength < 2 ==> radius_for(strength) == 20,
        2 <= strength < 7 ==> radius_for(strength) == 50,
        7 <= strength ==> radius_for(strength) == 150,
{
    lemma_strength_numbers(strength + 2);
}

/// The margin is four pixels and the smallest whole number of pixels that is at
/// least one and a half times the offset for each pass.
pub proof fn lemma_margin_holds_offsets(passes: int, offset: BlurOffset)
    requires
        passes >= 0,
        offset.den > 0,
    ensures
        (capture_margin(passes, offset) - 4) * (2 * offset.den) >= 3 * (passes * offset.num),
        (capture_margin(passes, offset) - 5) * (2 * offset.den) < 3 * (passes * offset.num),
{
    lemma_ceil_div(3 * (passes * offset.num), 2 * offset.den);
}

} // verus!
