use vstd::prelude::*;

verus! {

/// `v` held to the range of `i32`.
pub open spec fn clamp_i32(v: int) -> int {
    if v < i32::MIN {
        i32::MIN as int
    } else if v > i32::MAX {
        i32::MAX as int
    } else {
        v
    }
}

/// `v` held to the range of `i32`.
pub fn clamp_to_i32(v: i64) -> (r: i32)
    ensures
        r == clamp_i32(v as int),
{
    if v < i32::MIN as i64 {
        i32::MIN
    } else if v > i32::MAX as i64 {
        i32::MAX
    } else {
        v as i32
    }
}

/// Sum of two coordinates, held to the range of `i32`.
pub fn saturating_sum(a: i32, b: i32) -> (r: i32)
    ensures
        r == clamp_i32(a + b),
{
    clamp_to_i32(a as i64 + b as i64)
}

/// An on-screen rectangle in whole pixels.
#[derive(Debug, Clone, Copy, PartialEq, Eq, Structural)]
pub struct Geometry {
    pub x: i32,
    pub y: i32,
    pub width: i32,
    pub height: i32,
}

impl Geometry {
    /// Whether the point lies in the rectangle, both edges included.
    pub open spec fn spec_contains(self, px: int, py: int) -> bool {
        self.x <= px <= self.x + self.width && self.y <= py <= self.y + self.height
    }

    pub fn contains(&self, px: i32, py: i32) -> (r: bool)
        ensures
            r == self.spec_contains(px as int, py as int),
    {
        let right: i64 = self.x as i64 + self.width as i64;
        let bottom: i64 = self.y as i64 + self.height as i64;
        self.x <= px && (px as i64) <= right && self.y <= py && (py as i64) <= bottom
    }

    /// The rectangle at the origin with the given size.
    pub fn sized(width: i32, height: i32) -> (g: Geometry)
        ensures
            g == (Geometry { x: 0, y: 0, width, height }),
    {
        Geometry { x: 0, y: 0, width, height }
    }
}

/// The absolute geometry of a box placed at `relative` inside a parent whose
/// absolute geometry is `parent`: the parent's origin plus the relative box.
pub open spec fn spec_absolute(parent: Geometry, relative: Geometry) -> Geometry {
    Geometry {
        x: clamp_i32(parent.x + relative.x) as i32,
        y: clamp_i32(parent.y + relative.y) as i32,
        width: relative.width,
        height: relative.height,
    }
}

pub fn absolute(parent: Geometry, relative: Geometry) -> (g: Geometry)
    ensures
        g == spec_absolute(parent, relative),
{
    Geometry {
        x: saturating_sum(parent.x, relative.x),
        y: saturating_sum(parent.y, relative.y),
        width: relative.width,
        height: relative.height,
    }
}

/// A pointer event at absolute coordinates.
#[derive(Debug, Clone, Copy, PartialEq, Eq, Structural)]
pub enum Event {
    MouseClick { x: i32, y: i32 },
    MouseMove { x: i32, y: i32 },
    MouseDown { x: i32, y: i32 },
    MouseUp { x: i32, y: i32 },
}

} // verus!
