//! Plane geometry: sizes, points and rectangles, and the directions and
//! alignments that tell how the generic axes of a layout lie on the page.

use crate::length::{fit, fitted, sum, Length};
use vstd::prelude::*;

verus! {

/// The two specific axes of the page.
#[derive(Debug, Clone, Copy, PartialEq, Eq, Structural)]
pub enum SpecAxis {
    /// From left to right or from right to left.
    Horizontal,
    /// From top to bottom or from bottom to top.
    Vertical,
}

/// A side of a rectangle.
#[derive(Debug, Clone, Copy, PartialEq, Eq, Structural)]
pub enum Side {
    Left,
    Top,
    Right,
    Bottom,
}

/// A direction along one of the specific axes.
#[derive(Debug, Clone, Copy, PartialEq, Eq, Structural)]
pub enum Dir {
    /// Left to right.
    LTR,
    /// Right to left.
    RTL,
    /// Top to bottom.
    TTB,
    /// Bottom to top.
    BTT,
}

impl Dir {
    /// The specific axis that the direction lies on.
    pub open spec fn spec_axis(self) -> SpecAxis {
        if self is LTR || self is RTL {
            SpecAxis::Horizontal
        } else {
            SpecAxis::Vertical
        }
    }

    /// Whether the direction points into the positive direction of its axis:
    /// to the right or to the bottom.
    pub open spec fn spec_is_positive(self) -> bool {
        self is LTR || self is TTB
    }

    /// The side that the direction starts at.
    pub open spec fn spec_start(self) -> Side {
        match self {
            Dir::LTR => Side::Left,
            Dir::RTL => Side::Right,
            Dir::TTB => Side::Top,
            Dir::BTT => Side::Bottom,
        }
    }

    /// The side that the direction ends at.
    pub open spec fn spec_end(self) -> Side {
        match self {
            Dir::LTR => Side::Right,
            Dir::RTL => Side::Left,
            Dir::TTB => Side::Bottom,
            Dir::BTT => Side::Top,
        }
    }

    /// The specific axis that the direction lies on.
    #[verifier::when_used_as_spec(spec_axis)]
    pub fn axis(self) -> (r: SpecAxis)
        ensures
            r == self.spec_axis(),
    {
        match self {
            Dir::LTR | Dir::RTL => SpecAxis::Horizontal,
            Dir::TTB | Dir::BTT => SpecAxis::Vertical,
        }
    }

    /// Whether the direction points to the right or to the bottom.
    #[verifier::when_used_as_spec(spec_is_positive)]
    pub fn is_positive(self) -> (r: bool)
        ensures
            r == self.spec_is_positive(),
    {
        match self {
            Dir::LTR | Dir::TTB => true,
            Dir::RTL | Dir::BTT => false,
        }
    }

    /// The side that the direction starts at.
    #[verifier::when_used_as_spec(spec_start)]
    pub fn start(self) -> (r: Side)
        ensures
            r == self.spec_start(),
    {
        match self {
            Dir::LTR => Side::Left,
            Dir::RTL => Side::Right,
            Dir::TTB => Side::Top,
            Dir::BTT => Side::Bottom,
        }
    }

    /// The side that the direction ends at.
    #[verifier::when_used_as_spec(spec_end)]
    pub fn end(self) -> (r: Side)
        ensures
            r == self.spec_end(),
    {
        match self {
            Dir::LTR => Side::Right,
            Dir::RTL => Side::Left,
            Dir::TTB => Side::Bottom,
            Dir::BTT => Side::Top,
        }
    }

    /// A way of the given length in this direction, as a way along the axis.
    pub fn signed(self, way: i128) -> (r: i128)
        requires
            way > i128::MIN,
        ensures
            r == if self.is_positive() {
                way as int
            } else {
                -way
            },
    {
        if self.is_positive() {
            way
        } else {
            -way
        }
    }
}

/// Where to place something along a generic axis.
#[derive(Debug, Clone, Copy, PartialEq, Eq, Structural)]
pub enum GenAlign {
    Start,
    Center,
    End,
}

impl GenAlign {
    /// The place of the alignment in the order start, center, end.
    pub open spec fn spec_rank(self) -> u8 {
        match self {
            GenAlign::Start => 0,
            GenAlign::Center => 1,
            GenAlign::End => 2,
        }
    }

    /// The place of the alignment in the order start, center, end.
    #[verifier::when_used_as_spec(spec_rank)]
    pub fn rank(self) -> (r: u8)
        ensures
            r == self.spec_rank(),
    {
        match self {
            GenAlign::Start => 0,
            GenAlign::Center => 1,
            GenAlign::End => 2,
        }
    }

    /// Twice the part of the free room that lies to the left of (or above)
    /// something with this alignment on an axis with direction `dir`.
    pub open spec fn twice_room_before(self, dir: Dir, room: int) -> int {
        match self {
            GenAlign::Start => if dir.is_positive() {
                0
            } else {
                2 * room
            },
            GenAlign::Center => room,
            GenAlign::End => if dir.is_positive() {
                2 * room
            } else {
                0
            },
        }
    }

    /// The doubled coordinate of something that is aligned between `low` and
    /// `high` and has the given extent.
    pub open spec fn spec_place(self, dir: Dir, low: int, high: int, extent: Length) -> Length {
        fit(2 * fit(low) + self.twice_room_before(dir, fit(high - low - extent) as int))
    }

    /// The doubled coordinate of something that is aligned between `low` and
    /// `high` and has the given extent.
    pub fn place(self, dir: Dir, low: i128, high: i128, extent: Length) -> (r: Length)
        requires
            i128::MIN <= high - low <= i128::MAX,
            i128::MIN <= high - low - extent <= i128::MAX,
        ensures
            r == self.spec_place(dir, low as int, high as int, extent),
    {
        let start: i128 = 2 * fitted(low) as i128;
        let room: i128 = fitted(high - low - extent as i128) as i128;
        let before: i128 = match self {
            GenAlign::Start => if dir.is_positive() {
                0
            } else {
                2 * room
            },
            GenAlign::Center => room,
            GenAlign::End => if dir.is_positive() {
                2 * room
            } else {
                0
            },
        };
        fitted(start + before)
    }
}

/// A pair of values for the two generic axes. Boxes are stacked along the main
/// axis; the cross axis is the other one.
#[derive(Debug, Clone, Copy, PartialEq, Eq)]
pub struct Gen2<T> {
    pub main: T,
    pub cross: T,
}

/// A pair of values for the two specific axes.
#[derive(Debug, Clone, Copy, PartialEq, Eq)]
pub struct Spec2<T> {
    pub horizontal: T,
    pub vertical: T,
}

impl<T> Gen2<T> {
    /// A pair from its two values.
    pub fn new(main: T, cross: T) -> (r: Self)
        ensures
            r == (Gen2 { main, cross }),
    {
        Gen2 { main, cross }
    }

    /// The pair by specific axes, where the main axis lies on that of
    /// `dirs.main` and the cross axis is the other one.
    pub open spec fn spec_switch(self, dirs: Gen2<Dir>) -> Spec2<T> {
        if dirs.main.axis() is Horizontal {
            Spec2 { horizontal: self.main, vertical: self.cross }
        } else {
            Spec2 { horizontal: self.cross, vertical: self.main }
        }
    }

    /// The pair by specific axes, where the main axis lies on that of
    /// `dirs.main` and the cross axis is the other one.
    #[verifier::when_used_as_spec(spec_switch)]
    pub fn switch(self, dirs: Gen2<Dir>) -> (r: Spec2<T>)
        ensures
            r == self.spec_switch(dirs),
    {
        match dirs.main.axis() {
            SpecAxis::Horizontal => Spec2 { horizontal: self.main, vertical: self.cross },
            SpecAxis::Vertical => Spec2 { horizontal: self.cross, vertical: self.main },
        }
    }
}

/// Alignment at the start of both axes.
pub open spec fn start_aligns() -> Gen2<GenAlign> {
    Gen2 { main: GenAlign::Start, cross: GenAlign::Start }
}

impl Default for Gen2<GenAlign> {
    /// Alignment at the start of both axes.
    fn default() -> (r: Self)
        ensures
            r == start_aligns(),
    {
        Gen2 { main: GenAlign::Start, cross: GenAlign::Start }
    }
}

impl Spec2<Length> {
    /// The pair as the size of a box.
    pub open spec fn spec_to_size(self) -> Size {
        Size { width: self.horizontal, height: self.vertical }
    }

    /// The pair as the size of a box.
    #[verifier::when_used_as_spec(spec_to_size)]
    pub fn to_size(self) -> (r: Size)
        ensures
            r == self.spec_to_size(),
    {
        Size { width: self.horizontal, height: self.vertical }
    }

    /// The point at these distances from the origin.
    pub open spec fn spec_to_point(self) -> Point {
        Point { x2: fit(2 * self.horizontal), y2: fit(2 * self.vertical) }
    }

    /// The point at these distances from the origin.
    #[verifier::when_used_as_spec(spec_to_point)]
    pub fn to_point(self) -> (r: Point)
        ensures
            r == self.spec_to_point(),
    {
        Point { x2: fitted(2 * self.horizontal as i128), y2: fitted(2 * self.vertical as i128) }
    }
}

/// The size of a box or of a space.
#[derive(Debug, Clone, Copy, PartialEq, Eq, Structural)]
pub struct Size {
    pub width: Length,
    pub height: Length,
}

impl Size {
    /// The size of nothing.
    pub open spec fn spec_zero() -> Size {
        Size { width: 0, height: 0 }
    }

    /// The size of nothing.
    #[verifier::when_used_as_spec(spec_zero)]
    pub fn zero() -> (r: Size)
        ensures
            r == Size::spec_zero(),
    {
        Size { width: 0, height: 0 }
    }

    /// The extent along an axis.
    pub open spec fn spec_get(self, axis: SpecAxis) -> Length {
        match axis {
            SpecAxis::Horizontal => self.width,
            SpecAxis::Vertical => self.height,
        }
    }

    /// The extent along an axis.
    #[verifier::when_used_as_spec(spec_get)]
    pub fn get(self, axis: SpecAxis) -> (r: Length)
        ensures
            r == self.spec_get(axis),
    {
        match axis {
            SpecAxis::Horizontal => self.width,
            SpecAxis::Vertical => self.height,
        }
    }

    /// The size with its extent along an axis replaced.
    pub open spec fn spec_with(self, axis: SpecAxis, extent: Length) -> Size {
        match axis {
            SpecAxis::Horizontal => Size { width: extent, height: self.height },
            SpecAxis::Vertical => Size { width: self.width, height: extent },
        }
    }

    /// The size with its extent along an axis replaced.
    #[verifier::when_used_as_spec(spec_with)]
    pub fn with(self, axis: SpecAxis, extent: Length) -> (r: Size)
        ensures
            r == self.spec_with(axis, extent),
    {
        match axis {
            SpecAxis::Horizontal => Size { width: extent, height: self.height },
            SpecAxis::Vertical => Size { width: self.width, height: extent },
        }
    }

    /// Whether something of size `other` fits into this size.
    pub open spec fn spec_fits(self, other: Size) -> bool {
        other.width <= self.width && other.height <= self.height
    }

    /// Whether something of size `other` fits into this size.
    #[verifier::when_used_as_spec(spec_fits)]
    pub fn fits(self, other: Size) -> (r: bool)
        ensures
            r == self.spec_fits(other),
    {
        other.width <= self.width && other.height <= self.height
    }

    /// The size by generic axes, where the main axis lies on that of
    /// `dirs.main` and the cross axis is the other one.
    pub open spec fn spec_switch(self, dirs: Gen2<Dir>) -> Gen2<Length> {
        if dirs.main.axis() is Horizontal {
            Gen2 { main: self.width, cross: self.height }
        } else {
            Gen2 { main: self.height, cross: self.width }
        }
    }

    /// The size by generic axes, where the main axis lies on that of
    /// `dirs.main` and the cross axis is the other one.
    #[verifier::when_used_as_spec(spec_switch)]
    pub fn switch(self, dirs: Gen2<Dir>) -> (r: Gen2<Length>)
        ensures
            r == self.spec_switch(dirs),
    {
        match dirs.main.axis() {
            SpecAxis::Horizontal => Gen2 { main: self.width, cross: self.height },
            SpecAxis::Vertical => Gen2 { main: self.height, cross: self.width },
        }
    }
}

/// A point of the page in doubled coordinates: `x2` and `y2` are twice its
/// distances from the origin, so that the middle of every length is a point.
#[derive(Debug, Clone, Copy, PartialEq, Eq, Structural)]
pub struct Point {
    pub x2: Length,
    pub y2: Length,
}

impl Point {
    /// The point moved by the way from the origin to `by`.
    pub open spec fn spec_moved(self, by: Point) -> Point {
        Point { x2: fit(self.x2 + by.x2), y2: fit(self.y2 + by.y2) }
    }

    /// The point moved by the way from the origin to `by`.
    #[verifier::when_used_as_spec(spec_moved)]
    pub fn moved(self, by: Point) -> (r: Point)
        ensures
            r == self.spec_moved(by),
    {
        Point { x2: sum(self.x2, by.x2), y2: sum(self.y2, by.y2) }
    }

    /// Twice the distance from the origin along an axis.
    pub open spec fn along(self, axis: SpecAxis) -> Length {
        match axis {
            SpecAxis::Horizontal => self.x2,
            SpecAxis::Vertical => self.y2,
        }
    }
}

/// A rectangle by the positions of its four sides.
///
/// A side may have been moved by the lengths of a whole sequence of boxes, which
/// a single [`Length`] cannot hold.
#[derive(Debug, Clone, Copy, PartialEq, Eq, Structural)]
pub struct Rect {
    pub x0: i128,
    pub y0: i128,
    pub x1: i128,
    pub y1: i128,
}

impl Rect {
    /// The position of a side.
    pub open spec fn side(self, side: Side) -> i128 {
        match side {
            Side::Left => self.x0,
            Side::Top => self.y0,
            Side::Right => self.x1,
            Side::Bottom => self.y1,
        }
    }

    /// Moves one side along its axis.
    pub fn shift_side(&mut self, side: Side, by: i128)
        requires
            i128::MIN <= old(self).side(side) + by <= i128::MAX,
        ensures
            final(self).x0 == old(self).x0 + if side is Left {
                by as int
            } else {
                0
            },
            final(self).y0 == old(self).y0 + if side is Top {
                by as int
            } else {
                0
            },
            final(self).x1 == old(self).x1 + if side is Right {
                by as int
            } else {
                0
            },
            final(self).y1 == old(self).y1 + if side is Bottom {
                by as int
            } else {
                0
            },
    {
        match side {
            Side::Left => {
                self.x0 = self.x0 + by;
            },
            Side::Top => {
                self.y0 = self.y0 + by;
            },
            Side::Right => {
                self.x1 = self.x1 + by;
            },
            Side::Bottom => {
                self.y1 = self.y1 + by;
            },
        }
    }
}

} // verus!
