//! Axis-aligned geometry over fixed-point coordinates.
//!
//! These are plain values: a rectangle is not required to have a
//! non-negative extent, and no operation fails.

use crate::fixed::Fixed;
use vstd::prelude::*;

verus! {

/// A point of the plane.
#[derive(Clone, Copy, Debug, PartialEq, Eq, Structural)]
pub struct Point {
    pub x: Fixed,
    pub y: Fixed,
}

/// A width and a height. Also used as a pair of scale factors.
#[derive(Clone, Copy, Debug, PartialEq, Eq, Structural)]
pub struct Extent {
    pub width: Fixed,
    pub height: Fixed,
}

/// An axis-aligned rectangle given by its top-left corner and its extent.
#[derive(Clone, Copy, Debug, PartialEq, Eq, Structural)]
pub struct Rect {
    pub xy: Point,
    pub size: Extent,
}

impl Point {
    /// The point moved by `(tx, ty)`.
    pub open spec fn spec_offset(self, tx: Fixed, ty: Fixed) -> Point {
        Point { x: self.x.spec_plus(tx), y: self.y.spec_plus(ty) }
    }

    /// The point with both coordinates multiplied by `k`.
    pub open spec fn spec_scaled(self, k: Fixed) -> Point {
        Point { x: self.x.spec_times(k), y: self.y.spec_times(k) }
    }

    /// Component-wise sum.
    pub open spec fn spec_plus(self, rhs: Point) -> Point {
        Point { x: self.x.spec_plus(rhs.x), y: self.y.spec_plus(rhs.y) }
    }

    /// Component-wise difference.
    pub open spec fn spec_minus(self, rhs: Point) -> Point {
        Point { x: self.x.spec_minus(rhs.x), y: self.y.spec_minus(rhs.y) }
    }

    /// The point `(x, y)`.
    pub fn new(x: Fixed, y: Fixed) -> (p: Point)
        ensures
            p == (Point { x, y }),
    {
        Point { x, y }
    }

    /// The point moved by `(tx, ty)`.
    pub fn offset(&self, tx: Fixed, ty: Fixed) -> (p: Point)
        ensures
            p == self.spec_offset(tx, ty),
    {
        Point { x: self.x.plus(tx), y: self.y.plus(ty) }
    }

    /// The point with both coordinates multiplied by `k`.
    pub fn scaled(&self, k: Fixed) -> (p: Point)
        ensures
            p == self.spec_scaled(k),
    {
        Point { x: self.x.times(k), y: self.y.times(k) }
    }

    /// Component-wise sum.
    pub fn plus(&self, rhs: &Point) -> (p: Point)
        ensures
            p == self.spec_plus(*rhs),
    {
        Point { x: self.x.plus(rhs.x), y: self.y.plus(rhs.y) }
    }

    /// Component-wise difference.
    pub fn minus(&self, rhs: &Point) -> (p: Point)
        ensures
            p == self.spec_minus(*rhs),
    {
        Point { x: self.x.minus(rhs.x), y: self.y.minus(rhs.y) }
    }
}

impl Extent {
    /// The extent `width` by `height`.
    pub fn new(width: Fixed, height: Fixed) -> (e: Extent)
        ensures
            e == (Extent { width, height }),
    {
        Extent { width, height }
    }
}

impl Rect {
    /// Right edge, `x + width`.
    pub open spec fn spec_right(self) -> Fixed {
        self.xy.x.spec_plus(self.size.width)
    }

    /// Bottom edge, `y + height`.
    pub open spec fn spec_bottom(self) -> Fixed {
        self.xy.y.spec_plus(self.size.height)
    }

    /// The overlap of two rectangles. Its corner is the larger of the two
    /// left edges and of the two top edges; its extent reaches to the
    /// smaller of the two right and bottom edges, and is zero on an axis on
    /// which the rectangles do not overlap.
    pub open spec fn spec_intersect(self, rect: Rect) -> Rect {
        let min_x = self.xy.x.spec_max(rect.xy.x);
        let min_y = self.xy.y.spec_max(rect.xy.y);
        let max_x = self.spec_right().spec_min(rect.spec_right());
        let max_y = self.spec_bottom().spec_min(rect.spec_bottom());
        Rect {
            xy: Point { x: min_x, y: min_y },
            size: Extent {
                width: max_x.spec_minus(min_x).spec_max(Fixed::spec_zero()),
                height: max_y.spec_minus(min_y).spec_max(Fixed::spec_zero()),
            },
        }
    }

    /// Width times height. Negative extents are not clamped.
    pub open spec fn spec_area(self) -> Fixed {
        self.size.width.spec_times(self.size.height)
    }

    /// Corner and extent multiplied component-wise by `(sx, sy)`.
    pub open spec fn spec_scale(self, sx: Fixed, sy: Fixed) -> Rect {
        Rect {
            xy: Point { x: self.xy.x.spec_times(sx), y: self.xy.y.spec_times(sy) },
            size: Extent {
                width: self.size.width.spec_times(sx),
                height: self.size.height.spec_times(sy),
            },
        }
    }

    /// The rectangle moved by `(tx, ty)`, its extent unchanged.
    pub open spec fn spec_translate(self, tx: Fixed, ty: Fixed) -> Rect {
        Rect { xy: self.xy.spec_offset(tx, ty), size: self.size }
    }

    /// The rectangle with corner `xy` and extent `size`.
    pub fn new(xy: Point, size: Extent) -> (r: Rect)
        ensures
            r == (Rect { xy, size }),
    {
        Rect { xy, size }
    }

    /// The overlap of two rectangles; see [`Rect::spec_intersect`].
    pub fn intersect(self, rect: Rect) -> (r: Rect)
        ensures
            r == self.spec_intersect(rect),
    {
        let min_x = self.xy.x.max(rect.xy.x);
        let min_y = self.xy.y.max(rect.xy.y);
        let max_x = self.xy.x.plus(self.size.width).min(rect.xy.x.plus(rect.size.width));
        let max_y = self.xy.y.plus(self.size.height).min(rect.xy.y.plus(rect.size.height));
        Rect {
            xy: Point { x: min_x, y: min_y },
            size: Extent {
                width: max_x.minus(min_x).max(Fixed::zero()),
                height: max_y.minus(min_y).max(Fixed::zero()),
            },
        }
    }

    /// Width times height.
    pub fn area(&self) -> (a: Fixed)
        ensures
            a == self.spec_area(),
    {
        self.size.width.times(self.size.height)
    }

    /// Corner and extent multiplied component-wise by `(sx, sy)`.
    pub fn scale(&self, sx: Fixed, sy: Fixed) -> (r: Rect)
        ensures
            r == self.spec_scale(sx, sy),
    {
        Rect {
            xy: Point { x: self.xy.x.times(sx), y: self.xy.y.times(sy) },
            size: Extent {
                width: self.size.width.times(sx),
                height: self.size.height.times(sy),
            },
        }
    }

    /// The rectangle moved by `(tx, ty)`.
    pub fn translate(&self, tx: Fixed, ty: Fixed) -> (r: Rect)
        ensures
            r == self.spec_translate(tx, ty),
    {
        Rect { xy: self.xy.offset(tx, ty), size: self.size }
    }
}

} // verus!
