use vstd::prelude::*;

verus! {

/// Distinguishes the role a circle plays in the host's scene. The wrapping
/// pipeline itself treats every circle alike; the tag is carried through
/// for the caller.
#[derive(Clone, Copy, Debug, PartialEq, Eq, Structural)]
pub enum CircleType {
    Inner,
    Outer,
}

/// A circle of the input set. The coordinates and the radius are the
/// host's exact 32-bit encodings; the library never computes on them, it
/// only compares them for identity and hands them back. Identity of a
/// circle is its `id`: two circles of one input set may share a center,
/// but not an id.
#[derive(Clone, Copy, Debug, PartialEq, Eq, Structural)]
pub struct Circle {
    pub id: i32,
    pub x: u32,
    pub y: u32,
    pub radius: u32,
}

/// A bare coordinate pair, in the same exact encoding as `Circle`.
#[derive(Clone, Copy, Debug, PartialEq, Eq, Structural)]
pub struct Coord {
    pub x: u32,
    pub y: u32,
}

/// A point on a circle's boundary produced as a tangency point. It carries
/// the id of the circle it lies on, so a hull vertex can be traced back to
/// its circle.
#[derive(Clone, Copy, Debug, PartialEq, Eq, Structural)]
pub struct TangentPoint {
    pub circle_id: i32,
    pub x: u32,
    pub y: u32,
}

impl TangentPoint {
    /// The bare coordinates of this tangency point.
    pub open spec fn spec_coord(self) -> Coord {
        Coord { x: self.x, y: self.y }
    }

    /// The bare coordinates of this tangency point.
    pub fn coord(&self) -> (c: Coord)
        ensures
            c == self.spec_coord(),
    {
        Coord { x: self.x, y: self.y }
    }
}

/// One common tangent segment of a pair of circles: its endpoint on the
/// first circle's boundary, then its endpoint on the second circle's
/// boundary.
#[derive(Clone, Copy, Debug, PartialEq, Eq, Structural)]
pub struct Tangent(pub TangentPoint, pub TangentPoint);

} // verus!
