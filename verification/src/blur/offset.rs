//! Sampling distances of the blur shaders, as exact fractions.

use vstd::arithmetic::power2::{lemma_pow2_pos, lemma_pow2_unfold, pow2};
use vstd::prelude::*;

verus! {

/// `n / d`, rounded up.
pub open spec fn ceil_div(n: int, d: int) -> int {
    (n + d - 1) / d
}

/// The distance in pixels, at full resolution, at which the blur shaders
/// sample the texture: the fraction `num / den`.
#[derive(Clone, Copy, Debug)]
pub struct BlurOffset {
    pub num: u32,
    pub den: u32,
}

impl BlurOffset {
    pub open spec fn wf(self) -> bool {
        self.den > 0
    }

    /// Both are fractions, and they denote the same distance.
    pub open spec fn same(self, other: BlurOffset) -> bool {
        &&& self.wf()
        &&& other.wf()
        &&& self.num * other.den == other.num * self.den
    }

    /// The distance that is sampled when blurring down from `level` or up to
    /// it, in whole pixels of that level, and one pixel for the filtering.
    pub open spec fn pad(self, level: nat) -> int {
        ceil_div(self.num as int, self.den * pow2(level + 1)) + 1
    }

    /// The pad of the largest level can be doubled.
    pub open spec fn pads_fit(self) -> bool {
        2 * self.pad(0) <= i32::MAX
    }

    /// Whether both are fractions that denote the same distance.
    pub fn equals(&self, other: &BlurOffset) -> (r: bool)
        ensures
            r == self.same(*other),
    {
        proof {
            lemma_product_fits(self.num as int, other.den as int);
            lemma_product_fits(other.num as int, self.den as int);
        }
        self.den > 0 && other.den > 0 && self.num as u64 * other.den as u64 == other.num as u64
            * self.den as u64
    }
}

proof fn lemma_product_fits(a: int, b: int)
    by (nonlinear_arith)
    requires
        0 <= a <= u32::MAX,
        0 <= b <= u32::MAX,
    ensures
        0 <= a * b <= u32::MAX * u32::MAX,
{
}

/// Rounding up: the smallest integer that, times `d`, reaches `n`.
pub proof fn lemma_ceil_div(n: int, d: int)
    requires
        d > 0,
    ensures
        ceil_div(n, d) * d >= n,
        (ceil_div(n, d) - 1) * d < n,
        n >= 0 ==> ceil_div(n, d) >= 0,
        n > 0 ==> ceil_div(n, d) > 0,
{
    vstd::arithmetic::div_mod::lemma_fundamental_div_mod(n + d - 1, d);
    vstd::arithmetic::div_mod::lemma_mod_bound(n + d - 1, d);
    let q = ceil_div(n, d);
    assert(q * d == d * q) by (nonlinear_arith);
    assert((q - 1) * d == q * d - d) by (nonlinear_arith);
    if n >= 0 && q < 0 {
        assert(q * d <= -d) by (nonlinear_arith)
            requires
                q <= -1,
                d > 0,
        ;
    }
    if n > 0 && q <= 0 {
        assert(q * d <= 0) by (nonlinear_arith)
            requires
                q <= 0,
                d > 0,
        ;
    }
}

/// Deeper levels never need a larger pad, and every pad is at least one pixel.
pub proof fn lemma_pad_shrinks(offset: BlurOffset, level: nat)
    requires
        offset.wf(),
    ensures
        1 <= offset.pad(level) <= offset.pad(0),
    decreases level,
{
    let d = offset.den * pow2(level + 1);
    lemma_pow2_pos(level + 1);
    assert(d > 0) by (nonlinear_arith)
        requires
            d == offset.den * pow2(level + 1),
            offset.den > 0,
            pow2(level + 1) > 0,
    ;
    lemma_ceil_div(offset.num as int, d);
    if level > 0 {
        let previous = (level - 1) as nat;
        lemma_pad_shrinks(offset, previous);
        let e = offset.den * pow2(level);
        lemma_pow2_unfold(level + 1);
        lemma_pow2_pos(level);
        assert(e > 0 && d == 2 * e) by (nonlinear_arith)
            requires
                d == offset.den * pow2(level + 1),
                e == offset.den * pow2(level),
                pow2(level + 1) == 2 * pow2(level),
                offset.den > 0,
                pow2(level) > 0,
        ;
        lemma_ceil_div(offset.num as int, e);
        let small = ceil_div(offset.num as int, d);
        let large = ceil_div(offset.num as int, e);
        if small > large {
            assert((small - 1) * d >= large * e) by (nonlinear_arith)
                requires
                    small - 1 >= large,
                    large >= 0,
                    d == 2 * e,
                    e > 0,
            ;
        }
    }
}

/// Fractions denote the same distance if bringing them to a common denominator
/// makes their numerators equal, and only then. What has no denominator is no
/// fraction.
pub proof fn lemma_same_distance(a: BlurOffset, b: BlurOffset)
    ensures
        a.same(b) <==> a.den > 0 && b.den > 0 && a.num * b.den == b.num * a.den,
        a.same(b) <==> b.same(a),
        a.den > 0 && a.den == b.den ==> (a.same(b) <==> a.num == b.num),
{
    if a.den == b.den && a.den > 0 {
        let d = a.den;
        assert(a.num * d == b.num * d ==> a.num == b.num) by (nonlinear_arith)
            requires
                d > 0,
        ;
    }
}

/// The pad is one pixel and the smallest whole number of pixels of the level
/// below that the offset fits into: `num / den` pixels of the full resolution
/// are `num / (den * 2^(level + 1))` of that level.
pub proof fn lemma_pad_holds_offset(offset: BlurOffset, level: nat)
    requires
        offset.den > 0,
    ensures
        (offset.pad(level) - 1) * (offset.den * pow2(level + 1)) >= offset.num,
        (offset.pad(level) - 2) * (offset.den * pow2(level + 1)) < offset.num,
{
    let d = offset.den * pow2(level + 1);
    lemma_pow2_pos(level + 1);
    assert(d > 0) by (nonlinear_arith)
        requires
            d == offset.den * pow2(level + 1),
            offset.den > 0,
            pow2(level + 1) > 0,
    ;
    lemma_ceil_div(offset.num as int, d);
}

} // verus!
