//! Integer points, sizes and rectangles.
//!
//! Arithmetic on coordinates saturates at the bounds of `i32`. The right and
//! bottom edges of a rectangle are exclusive.

use vstd::math::{abs, max as max_int, min as min_int};
use vstd::prelude::*;

verus! {

/// `v`, brought into the range of `i32`.
pub open spec fn clamp_i32(v: int) -> i32 {
    if v < i32::MIN {
        i32::MIN
    } else if v > i32::MAX {
        i32::MAX
    } else {
        v as i32
    }
}

pub open spec fn min_i32(a: i32, b: i32) -> i32 {
    if a < b {
        a
    } else {
        b
    }
}

pub open spec fn max_i32(a: i32, b: i32) -> i32 {
    if a > b {
        a
    } else {
        b
    }
}

/// `v / 2`, rounded towards zero.
pub open spec fn half(v: int) -> int {
    if v >= 0 {
        v / 2
    } else {
        -((-v) / 2)
    }
}

/// Adds two coordinates, saturating at the bounds of `i32`.
pub fn saturating_add(a: i32, b: i32) -> (r: i32)
    ensures
        r == clamp_i32(a + b),
{
    let sum: i64 = a as i64 + b as i64;
    if sum < i32::MIN as i64 {
        i32::MIN
    } else if sum > i32::MAX as i64 {
        i32::MAX
    } else {
        sum as i32
    }
}

/// Subtracts two coordinates, saturating at the bounds of `i32`.
pub fn saturating_sub(a: i32, b: i32) -> (r: i32)
    ensures
        r == clamp_i32(a - b),
{
    let difference: i64 = a as i64 - b as i64;
    if difference < i32::MIN as i64 {
        i32::MIN
    } else if difference > i32::MAX as i64 {
        i32::MAX
    } else {
        difference as i32
    }
}

pub fn min(a: i32, b: i32) -> (r: i32)
    ensures
        r == min_i32(a, b),
{
    if a < b {
        a
    } else {
        b
    }
}

pub fn max(a: i32, b: i32) -> (r: i32)
    ensures
        r == max_i32(a, b),
{
    if a > b {
        a
    } else {
        b
    }
}

#[derive(Clone, Copy, Debug, PartialEq, Eq, Structural)]
pub struct Point {
    pub x: i32,
    pub y: i32,
}

#[derive(Clone, Copy, Debug, PartialEq, Eq, Structural)]
pub struct Size {
    pub w: i32,
    pub h: i32,
}

impl Size {
    /// Neither dimension is negative.
    pub open spec fn wf(self) -> bool {
        &&& self.w >= 0
        &&& self.h >= 0
    }

    /// One of the dimensions is zero.
    pub open spec fn empty(self) -> bool {
        self.w == 0 || self.h == 0
    }

    /// The number of pixels covered.
    pub open spec fn area(self) -> int {
        self.w * self.h
    }

    /// The size with both dimensions divided by `scale`.
    pub open spec fn downscaled(self, scale: int) -> Size {
        Size { w: (self.w as int / scale) as i32, h: (self.h as int / scale) as i32 }
    }

    /// Divides both dimensions by `scale`.
    pub fn downscale(self, scale: i64) -> (r: Size)
        requires
            self.wf(),
            scale > 0,
        ensures
            r == self.downscaled(scale as int),
            r.wf(),
            r.w <= self.w,
            r.h <= self.h,
    {
        proof {
            lemma_quotient_bounds(self.w as int, scale as int);
            lemma_quotient_bounds(self.h as int, scale as int);
        }
        Size { w: (self.w as i64 / scale) as i32, h: (self.h as i64 / scale) as i32 }
    }

    /// Subtracts `other`; a dimension that would become negative is zero.
    pub fn minus(self, other: Size) -> (r: Size)
        ensures
            r.w == max_i32(clamp_i32(self.w - other.w), 0),
            r.h == max_i32(clamp_i32(self.h - other.h), 0),
            r.wf(),
            self.wf() && other.wf() ==> {
                &&& self.w >= other.w ==> r.w + other.w == self.w
                &&& self.w < other.w ==> r.w == 0
                &&& self.h >= other.h ==> r.h + other.h == self.h
                &&& self.h < other.h ==> r.h == 0
            },
    {
        Size {
            w: max(saturating_sub(self.w, other.w), 0),
            h: max(saturating_sub(self.h, other.h), 0),
        }
    }
}

#[derive(Clone, Copy, Debug, PartialEq, Eq, Structural)]
pub struct Rectangle {
    pub loc: Point,
    pub size: Size,
}

impl Default for Rectangle {
    /// The empty rectangle at the origin.
    fn default() -> (r: Rectangle)
        ensures
            r == Rectangle::of_size(Size { w: 0, h: 0 }),
    {
        Rectangle { loc: Point { x: 0, y: 0 }, size: Size { w: 0, h: 0 } }
    }
}

impl Rectangle {
    /// The size is not negative.
    pub open spec fn wf(self) -> bool {
        self.size.wf()
    }

    pub open spec fn left(self) -> i32 {
        self.loc.x
    }

    pub open spec fn top(self) -> i32 {
        self.loc.y
    }

    pub open spec fn right(self) -> i32 {
        clamp_i32(self.loc.x + self.size.w)
    }

    pub open spec fn bottom(self) -> i32 {
        clamp_i32(self.loc.y + self.size.h)
    }

    pub open spec fn empty(self) -> bool {
        self.size.empty()
    }

    /// The right and bottom edges are within the range of `i32`, so that no
    /// edge is cut off.
    pub open spec fn unclipped(self) -> bool {
        &&& self.wf()
        &&& self.loc.x + self.size.w <= i32::MAX
        &&& self.loc.y + self.size.h <= i32::MAX
    }

    /// No edge of the rectangle lies outside `outer`.
    pub open spec fn within(self, outer: Rectangle) -> bool {
        &&& outer.left() <= self.left()
        &&& outer.top() <= self.top()
        &&& self.right() <= outer.right()
        &&& self.bottom() <= outer.bottom()
    }

    /// The pixel at `x`, `y` belongs to the rectangle.
    pub open spec fn covers(self, x: int, y: int) -> bool {
        &&& self.left() <= x < self.right()
        &&& self.top() <= y < self.bottom()
    }

    /// The rectangle of this size at the origin.
    pub open spec fn of_size(size: Size) -> Rectangle {
        Rectangle { loc: Point { x: 0, y: 0 }, size }
    }

    /// The rectangle between the four edges.
    pub open spec fn of_edges(left: i32, top: i32, right: i32, bottom: i32) -> Rectangle {
        Rectangle {
            loc: Point { x: left, y: top },
            size: Size { w: clamp_i32(right - left), h: clamp_i32(bottom - top) },
        }
    }

    /// The edges of each rectangle lie on either side of those of the other.
    /// An empty rectangle strictly inside another one overlaps it.
    pub open spec fn overlapping(self, other: Rectangle) -> bool {
        &&& self.left() < other.right()
        &&& other.left() < self.right()
        &&& self.top() < other.bottom()
        &&& other.top() < self.bottom()
    }

    /// The area common to two rectangles.
    pub open spec fn common(self, other: Rectangle) -> Option<Rectangle> {
        if self.overlapping(other) {
            Some(
                Rectangle::of_edges(
                    max_i32(self.left(), other.left()),
                    max_i32(self.top(), other.top()),
                    min_i32(self.right(), other.right()),
                    min_i32(self.bottom(), other.bottom()),
                ),
            )
        } else {
            None
        }
    }

    /// The area common to two rectangles, the empty one at the origin where
    /// there is none.
    pub open spec fn clipped(self, bounds: Rectangle) -> Rectangle {
        match self.common(bounds) {
            Some(rect) => rect,
            None => Rectangle::of_size(Size { w: 0, h: 0 }),
        }
    }

    /// The rectangle grown by `pad` on every side.
    pub open spec fn expanded(self, pad: int) -> Rectangle {
        Rectangle {
            loc: Point { x: clamp_i32(self.loc.x - pad), y: clamp_i32(self.loc.y - pad) },
            size: Size { w: clamp_i32(self.size.w + 2 * pad), h: clamp_i32(self.size.h + 2 * pad) },
        }
    }

    /// The rectangle on a grid of half the resolution, its end rounded up. Away
    /// from the negative coordinates, which are rounded towards zero, its
    /// double covers this one.
    pub open spec fn halved(self) -> Rectangle {
        let left = half(self.loc.x as int);
        let top = half(self.loc.y as int);
        let right = half(self.loc.x + self.size.w + 1);
        let bottom = half(self.loc.y + self.size.h + 1);
        Rectangle {
            loc: Point { x: left as i32, y: top as i32 },
            size: Size { w: (right - left) as i32, h: (bottom - top) as i32 },
        }
    }

    /// The rectangle of this size at the origin.
    pub fn from_size(size: Size) -> (r: Rectangle)
        ensures
            r == Rectangle::of_size(size),
    {
        Rectangle { loc: Point { x: 0, y: 0 }, size }
    }

    /// One of the dimensions is zero.
    pub fn is_empty(&self) -> (r: bool)
        ensures
            r == self.empty(),
    {
        self.size.w == 0 || self.size.h == 0
    }

    /// The area common to two rectangles, if they overlap.
    pub fn intersection(self, other: Rectangle) -> (r: Option<Rectangle>)
        requires
            self.wf(),
            other.wf(),
        ensures
            r == self.common(other),
            r matches Some(rect) ==> rect.unclipped() && rect.within(self) && rect.within(other),
    {
        let self_right: i32 = saturating_add(self.loc.x, self.size.w);
        let self_bottom: i32 = saturating_add(self.loc.y, self.size.h);
        let other_right: i32 = saturating_add(other.loc.x, other.size.w);
        let other_bottom: i32 = saturating_add(other.loc.y, other.size.h);
        if self.loc.x < other_right && other.loc.x < self_right && self.loc.y < other_bottom
            && other.loc.y < self_bottom {
            let left: i32 = max(self.loc.x, other.loc.x);
            let top: i32 = max(self.loc.y, other.loc.y);
            let right: i32 = min(self_right, other_right);
            let bottom: i32 = min(self_bottom, other_bottom);
            Some(
                Rectangle {
                    loc: Point { x: left, y: top },
                    size: Size { w: saturating_sub(right, left), h: saturating_sub(bottom, top) },
                },
            )
        } else {
            None
        }
    }

    /// The area common to two rectangles, the empty one at the origin where
    /// they do not overlap.
    pub fn clip(self, bounds: Rectangle) -> (r: Rectangle)
        requires
            self.wf(),
            bounds.wf(),
        ensures
            r == self.clipped(bounds),
            r.unclipped(),
    {
        match self.intersection(bounds) {
            Some(rect) => rect,
            None => Rectangle::default(),
        }
    }
}

/// Clipping to the area of `size` leaves a rectangle within that area. Unless
/// that area is empty, clipping once more changes nothing.
pub proof fn lemma_clipped_to_size(rect: Rectangle, size: Size)
    requires
        rect.wf(),
        size.wf(),
    ensures
        ({
            let bounds = Rectangle::of_size(size);
            let clipped = rect.clipped(bounds);
            &&& clipped.unclipped()
            &&& clipped.left() >= 0
            &&& clipped.top() >= 0
            &&& clipped.within(bounds)
            &&& !size.empty() ==> clipped.clipped(bounds) == clipped
        }),
{
}

/// Doubling a halved rectangle covers the rectangle, and no smaller one at half
/// the resolution does, if it lies away from the negative coordinates.
pub proof fn lemma_halved_covers(rect: Rectangle, other: Rectangle)
    requires
        rect.unclipped(),
        rect.left() >= 0,
        rect.top() >= 0,
    ensures
        ({
            let halved = rect.halved();
            &&& halved.unclipped()
            &&& 2 * halved.left() <= rect.left()
            &&& 2 * halved.top() <= rect.top()
            &&& rect.right() <= 2 * halved.right()
            &&& rect.bottom() <= 2 * halved.bottom()
        }),
        ({
            &&& 2 * other.left() <= rect.left()
            &&& 2 * other.top() <= rect.top()
            &&& rect.right() <= 2 * other.right()
            &&& rect.bottom() <= 2 * other.bottom()
        }) ==> rect.halved().within(other),
{
}

/// A quotient is no greater than what is divided.
pub proof fn lemma_quotient_bounds(v: int, d: int)
    by (nonlinear_arith)
    requires
        v >= 0,
        d > 0,
    ensures
        0 <= v / d <= v,
{
}

/// Bringing a number into the range of `i32` changes it as little as possible:
/// no other number of that range is closer.
pub proof fn lemma_clamp_is_closest(v: int, other: i32)
    ensures
        abs(clamp_i32(v) - v) <= abs(other - v),
        i32::MIN <= v <= i32::MAX ==> clamp_i32(v) == v,
{
}

/// The smaller and the larger of two numbers are these two numbers, in order.
pub proof fn lemma_min_max_ordered(a: i32, b: i32)
    ensures
        min_i32(a, b) <= max_i32(a, b),
        (min_i32(a, b) == a && max_i32(a, b) == b) || (min_i32(a, b) == b && max_i32(a, b) == a),
{
}

/// Half of a number, doubled, is the number, or, if that is odd, the even
/// number next to it on the side of zero.
pub proof fn lemma_half_doubled(v: int)
    ensures
        abs(2 * half(v) - v) <= 1,
        abs(2 * half(v)) <= abs(v),
{
}

/// Scaling down rounds down: scaling up again does not reach beyond the size,
/// and one more pixel would.
pub proof fn lemma_downscaled_rounds_down(size: Size, scale: int)
    requires
        size.wf(),
        scale > 0,
    ensures
        size.downscaled(scale).w * scale <= size.w < (size.downscaled(scale).w + 1) * scale,
        size.downscaled(scale).h * scale <= size.h < (size.downscaled(scale).h + 1) * scale,
{
    lemma_quotient_bounds(size.w as int, scale);
    lemma_quotient_bounds(size.h as int, scale);
    lemma_quotient_remainder(size.w as int, scale);
    lemma_quotient_remainder(size.h as int, scale);
}

proof fn lemma_quotient_remainder(v: int, d: int)
    by (nonlinear_arith)
    requires
        v >= 0,
        d > 0,
    ensures
        (v / d) * d <= v < (v / d + 1) * d,
{
}

/// A pixel belongs to the area common to two rectangles exactly if it belongs
/// to both, and there is such an area if there is such a pixel. Pixels at the
/// last coordinate belong to no rectangle.
pub proof fn lemma_common_pixels(a: Rectangle, b: Rectangle, x: int, y: int)
    requires
        a.wf(),
        b.wf(),
        x < i32::MAX,
        y < i32::MAX,
    ensures
        ({
            let in_both = {
                &&& a.loc.x <= x < a.loc.x + a.size.w
                &&& a.loc.y <= y < a.loc.y + a.size.h
                &&& b.loc.x <= x < b.loc.x + b.size.w
                &&& b.loc.y <= y < b.loc.y + b.size.h
            };
            match a.common(b) {
                Some(c) => in_both <==> {
                    &&& c.loc.x <= x < c.loc.x + c.size.w
                    &&& c.loc.y <= y < c.loc.y + c.size.h
                },
                None => !in_both,
            }
        }),
{
}

/// Two rectangles have an area in common exactly if, along both axes, each
/// starts before the other ends. It starts where the later one starts, and
/// ends where the earlier one ends. No rectangle reaches beyond the last
/// coordinate.
pub proof fn lemma_common_edges(a: Rectangle, b: Rectangle)
    requires
        a.wf(),
        b.wf(),
    ensures
        ({
            let last = i32::MAX as int;
            let a_right = min_int(a.loc.x + a.size.w, last);
            let a_bottom = min_int(a.loc.y + a.size.h, last);
            let b_right = min_int(b.loc.x + b.size.w, last);
            let b_bottom = min_int(b.loc.y + b.size.h, last);
            &&& a.common(b) is Some <==> {
                &&& a.loc.x < b_right && b.loc.x < a_right
                &&& a.loc.y < b_bottom && b.loc.y < a_bottom
            }
            &&& a.common(b) matches Some(c) ==> {
                &&& c.loc.x == max_int(a.loc.x as int, b.loc.x as int)
                &&& c.loc.y == max_int(a.loc.y as int, b.loc.y as int)
                &&& c.loc.x + c.size.w == min_int(a_right, b_right)
                &&& c.loc.y + c.size.h == min_int(a_bottom, b_bottom)
            }
        }),
        a.common(b) == b.common(a),
{
}

/// Clipping gives the area in common, or, if there is none, nothing at the
/// origin.
pub proof fn lemma_clipped_is_common(a: Rectangle, b: Rectangle)
    ensures
        a.common(b) matches Some(c) ==> a.clipped(b) == c,
        a.common(b) is None ==> {
            &&& a.clipped(b).loc.x == 0 && a.clipped(b).loc.y == 0
            &&& a.clipped(b).size.w == 0 && a.clipped(b).size.h == 0
        },
{
}

/// Growing a rectangle moves each of its edges outwards by the pad, as far as
/// the coordinates and the size stay within the range of `i32`.
pub proof fn lemma_expanded_edges(rect: Rectangle, pad: int)
    requires
        rect.wf(),
        0 <= pad,
    ensures
        ({
            let grown = rect.expanded(pad);
            &&& grown.loc.x == max_int(rect.loc.x - pad, i32::MIN as int)
            &&& grown.loc.y == max_int(rect.loc.y - pad, i32::MIN as int)
            &&& rect.loc.x - pad >= i32::MIN && rect.size.w + 2 * pad <= i32::MAX ==> grown.loc.x
                + grown.size.w == rect.loc.x + rect.size.w + pad
            &&& rect.loc.y - pad >= i32::MIN && rect.size.h + 2 * pad <= i32::MAX ==> grown.loc.y
                + grown.size.h == rect.loc.y + rect.size.h + pad
            &&& grown.size.w == min_int(rect.size.w + 2 * pad, i32::MAX as int)
            &&& grown.size.h == min_int(rect.size.h + 2 * pad, i32::MAX as int)
        }),
{
}

/// Halving a rectangle halves its start, and its end after it has been moved by
/// one. Odd coordinates lose one on the side of zero.
pub proof fn lemma_halved_edges(rect: Rectangle)
    requires
        rect.unclipped(),
    ensures
        ({
            let halved = rect.halved();
            let right = rect.loc.x + rect.size.w + 1;
            let bottom = rect.loc.y + rect.size.h + 1;
            let halved_right = halved.loc.x + halved.size.w;
            let halved_bottom = halved.loc.y + halved.size.h;
            &&& abs(2 * halved.loc.x - rect.loc.x) <= 1
            &&& abs(2 * halved.loc.x) <= abs(rect.loc.x as int)
            &&& abs(2 * halved.loc.y - rect.loc.y) <= 1
            &&& abs(2 * halved.loc.y) <= abs(rect.loc.y as int)
            &&& abs(2 * halved_right - right) <= 1 && abs(2 * halved_right) <= abs(right)
            &&& abs(2 * halved_bottom - bottom) <= 1 && abs(2 * halved_bottom) <= abs(bottom)
        }),
{
}

} // verus!
