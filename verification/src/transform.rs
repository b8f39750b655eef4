//! Rotations and reflections of an output.

use crate::geometry::{Point, Rectangle, Size};
use vstd::prelude::*;

verus! {

/// How the contents of an output are transformed before they are shown.
#[derive(Clone, Copy, Debug, PartialEq, Eq, Structural)]
pub enum Transform {
    Normal,
    _90,
    _180,
    _270,
    Flipped,
    Flipped90,
    Flipped180,
    Flipped270,
}

/// The start of a range of `len` pixels from `start` in an extent, which may be
/// seen from its other end.
pub open spec fn seen(mirror: bool, extent: i32, start: i32, len: i32) -> i32 {
    if mirror {
        (extent - start - len) as i32
    } else {
        start
    }
}

/// The start of a range as it is seen, and the sum that leads to it, are
/// within the range of `i32`.
pub open spec fn seen_fits(mirror: bool, extent: i32, start: i32, len: i32) -> bool {
    mirror ==> i32::MIN <= extent - start <= i32::MAX && i32::MIN <= extent - start - len <= i32::MAX
}

/// The start of a range in an extent, which may be seen from its other end.
fn see(mirror: bool, extent: i32, start: i32, len: i32) -> (r: i32)
    requires
        seen_fits(mirror, extent, start, len),
    ensures
        r == seen(mirror, extent, start, len),
{
    if mirror {
        extent - start - len
    } else {
        start
    }
}

impl Transform {
    /// Width and height change places.
    pub open spec fn swaps_axes(self) -> bool {
        self is _90 || self is _270 || self is Flipped90 || self is Flipped270
    }

    /// The transform that turns the other way. Reflections stay as they are.
    pub open spec fn inverted(self) -> Transform {
        match self {
            Transform::_90 => Transform::_270,
            Transform::_270 => Transform::_90,
            Transform::Flipped90 => Transform::Flipped270,
            Transform::Flipped270 => Transform::Flipped90,
            _ => self,
        }
    }

    pub open spec fn transformed_size(self, size: Size) -> Size {
        if self.swaps_axes() {
            Size { w: size.h, h: size.w }
        } else {
            size
        }
    }

    /// The transform mirrors the horizontal axis.
    pub open spec fn mirrors_x(self) -> bool {
        self is _180 || self is _270 || self is Flipped || self is Flipped90
    }

    /// The transform mirrors the vertical axis.
    pub open spec fn mirrors_y(self) -> bool {
        self is _90 || self is _180 || self is Flipped90 || self is Flipped180
    }

    /// `rect`, in an area of the size `area`, after the transform: its axes are
    /// mirrored, and then they change places.
    pub open spec fn transformed_rect(self, rect: Rectangle, area: Size) -> Rectangle {
        let x = seen(self.mirrors_x(), area.w, rect.loc.x, rect.size.w);
        let y = seen(self.mirrors_y(), area.h, rect.loc.y, rect.size.h);
        if self.swaps_axes() {
            Rectangle { loc: Point { x: y, y: x }, size: self.transformed_size(rect.size) }
        } else {
            Rectangle { loc: Point { x, y }, size: rect.size }
        }
    }

    /// `rect` can be transformed within the range of `i32`.
    pub open spec fn rect_fits(self, rect: Rectangle, area: Size) -> bool {
        &&& seen_fits(self.mirrors_x(), area.w, rect.loc.x, rect.size.w)
        &&& seen_fits(self.mirrors_y(), area.h, rect.loc.y, rect.size.h)
    }

    /// The transform that turns the other way.
    pub fn invert(&self) -> (r: Transform)
        ensures
            r == self.inverted(),
    {
        match self {
            Transform::Normal => Transform::Normal,
            Transform::Flipped => Transform::Flipped,
            Transform::_90 => Transform::_270,
            Transform::_180 => Transform::_180,
            Transform::_270 => Transform::_90,
            Transform::Flipped90 => Transform::Flipped270,
            Transform::Flipped180 => Transform::Flipped180,
            Transform::Flipped270 => Transform::Flipped90,
        }
    }

    /// The size after the transform.
    pub fn transform_size(&self, size: Size) -> (r: Size)
        ensures
            r == self.transformed_size(size),
    {
        match self {
            Transform::_90 | Transform::_270 | Transform::Flipped90 | Transform::Flipped270 => Size {
                w: size.h,
                h: size.w,
            },
            _ => size,
        }
    }

    /// The rectangle, in an area of the size `area`, after the transform.
    pub fn transform_rect_in(&self, rect: Rectangle, area: Size) -> (r: Rectangle)
        requires
            self.rect_fits(rect, area),
        ensures
            r == self.transformed_rect(rect, area),
    {
        let (mirror_x, mirror_y, swap) = match self {
            Transform::Normal => (false, false, false),
            Transform::_90 => (false, true, true),
            Transform::_180 => (true, true, false),
            Transform::_270 => (true, false, true),
            Transform::Flipped => (true, false, false),
            Transform::Flipped90 => (true, true, true),
            Transform::Flipped180 => (false, true, false),
            Transform::Flipped270 => (false, false, true),
        };
        let x: i32 = see(mirror_x, area.w, rect.loc.x, rect.size.w);
        let y: i32 = see(mirror_y, area.h, rect.loc.y, rect.size.h);
        let loc: Point = if swap {
            Point { x: y, y: x }
        } else {
            Point { x, y }
        };
        Rectangle { loc, size: self.transform_size(rect.size) }
    }
}

/// Inverting a transform twice changes nothing.
pub proof fn lemma_invert_twice(transform: Transform)
    ensures
        transform.inverted().inverted() == transform,
{
}

/// The inverted transform, in the transformed area, undoes a transform. This
/// does not hold of the reflections that are turned by a quarter.
pub proof fn lemma_inverted_undoes(transform: Transform, rect: Rectangle, area: Size)
    requires
        transform.rect_fits(rect, area),
        transform !is Flipped90,
        transform !is Flipped270,
    ensures
        transform.inverted().transformed_rect(
            transform.transformed_rect(rect, area),
            transform.transformed_size(area),
        ) == rect,
{
}

/// A rectangle within an area is within the transformed area after the
/// transform.
pub proof fn lemma_transformed_within_area(transform: Transform, rect: Rectangle, area: Size)
    requires
        rect.unclipped(),
        area.wf(),
        rect.left() >= 0,
        rect.top() >= 0,
        rect.within(Rectangle::of_size(area)),
    ensures
        transform.rect_fits(rect, area),
        transform.transformed_rect(rect, area).unclipped(),
        transform.transformed_rect(rect, area).within(
            Rectangle::of_size(transform.transformed_size(area)),
        ),
{
}

/// What the transforms that the others are made of do. A quarter turn puts what
/// was at the bottom to the left, and what was at the left to the top. A
/// reflection exchanges left and right.
pub proof fn lemma_basic_transforms(rect: Rectangle, area: Size)
    requires
        Transform::_90.rect_fits(rect, area),
        Transform::Flipped.rect_fits(rect, area),
    ensures
        ({
            let turned = Transform::_90.transformed_rect(rect, area);
            &&& turned.loc.x == area.h - (rect.loc.y + rect.size.h)
            &&& turned.loc.y == rect.loc.x
            &&& turned.size.w == rect.size.h
            &&& turned.size.h == rect.size.w
        }),
        ({
            let flipped = Transform::Flipped.transformed_rect(rect, area);
            &&& flipped.loc.x == area.w - (rect.loc.x + rect.size.w)
            &&& flipped.loc.y == rect.loc.y
            &&& flipped.size == rect.size
        }),
        Transform::Normal.transformed_rect(rect, area) == rect,
{
}

/// The other turns are quarter turns one after the other, and the turned
/// reflections are turns after a reflection. A turn by a quarter exchanges the
/// width and the height of the area.
pub proof fn lemma_composed_transforms(rect: Rectangle, area: Size)
    requires
        rect.unclipped(),
        area.wf(),
        rect.left() >= 0,
        rect.top() >= 0,
        rect.within(Rectangle::of_size(area)),
    ensures
        ({
            let turned_area = Size { w: area.h, h: area.w };
            let quarter = Transform::_90.transformed_rect(rect, area);
            let half_turn = Transform::_90.transformed_rect(quarter, turned_area);
            let flipped = Transform::Flipped.transformed_rect(rect, area);
            &&& Transform::_90.transformed_size(area) == turned_area
            &&& Transform::_180.transformed_size(area) == area
            &&& Transform::_270.transformed_size(area) == turned_area
            &&& Transform::Flipped.transformed_size(area) == area
            &&& Transform::Flipped90.transformed_size(area) == turned_area
            &&& Transform::Flipped180.transformed_size(area) == area
            &&& Transform::Flipped270.transformed_size(area) == turned_area
            &&& Transform::_180.transformed_rect(rect, area) == half_turn
            &&& Transform::_270.transformed_rect(rect, area) == Transform::_90.transformed_rect(
                half_turn,
                area,
            )
            &&& Transform::_90.transformed_rect(
                Transform::_270.transformed_rect(rect, area),
                turned_area,
            ) == rect
            &&& Transform::Flipped.transformed_rect(flipped, area) == rect
            &&& Transform::Flipped90.transformed_rect(rect, area)
                == Transform::_90.transformed_rect(flipped, area)
            &&& Transform::Flipped180.transformed_rect(rect, area)
                == Transform::_180.transformed_rect(flipped, area)
            &&& Transform::Flipped270.transformed_rect(rect, area)
                == Transform::_270.transformed_rect(flipped, area)
        }),
{
}

/// Inverting keeps a reflection and turns the other way: after a reflection, by
/// a quarter less where it was a quarter more.
pub proof fn lemma_inverted_turns_back()
    ensures
        Transform::Normal.inverted() == Transform::Normal,
        Transform::_90.inverted() == Transform::_270,
        Transform::_180.inverted() == Transform::_180,
        Transform::_270.inverted() == Transform::_90,
        Transform::Flipped.inverted() == Transform::Flipped,
        Transform::Flipped90.inverted() == Transform::Flipped270,
        Transform::Flipped180.inverted() == Transform::Flipped180,
        Transform::Flipped270.inverted() == Transform::Flipped90,
{
}

} // verus!
