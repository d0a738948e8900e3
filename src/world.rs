use vstd::prelude::*;

verus! {

/// Width of the world rectangle, in pixels.
pub const WORLD_WIDTH: u32 = 4000;

/// Height of the world rectangle, in pixels.
pub const WORLD_HEIGHT: u32 = 2000;

/// An edge of the world rectangle. The y axis points down: `Top` is `y = 0`
/// and `Bottom` is `y = WORLD_HEIGHT`.
#[derive(Clone, Copy, Debug, PartialEq, Eq, Structural)]
pub enum WorldEdge {
    Left,
    Right,
    Bottom,
    Top,
}

/// A coordinate axis.
#[derive(Clone, Copy, Debug, PartialEq, Eq, Structural)]
pub enum Axis {
    X,
    Y,
}

/// How a particle that crossed an edge is put back: the velocity component
/// along `axis` is negated and the position along `axis` is set to `boundary`.
#[derive(Clone, Copy, Debug, PartialEq, Eq, Structural)]
pub struct Reflection {
    pub axis: Axis,
    pub boundary: u32,
}

impl WorldEdge {
    /// The axis that crosses this edge.
    pub open spec fn spec_axis(self) -> Axis {
        match self {
            WorldEdge::Left | WorldEdge::Right => Axis::X,
            WorldEdge::Top | WorldEdge::Bottom => Axis::Y,
        }
    }

    /// The coordinate of this edge along its axis.
    pub open spec fn spec_boundary(self) -> u32 {
        match self {
            WorldEdge::Left | WorldEdge::Top => 0,
            WorldEdge::Right => WORLD_WIDTH,
            WorldEdge::Bottom => WORLD_HEIGHT,
        }
    }

    /// The reflection off this edge: left and right negate the x velocity
    /// and clamp x to 0 or `WORLD_WIDTH`; top and bottom negate the y
    /// velocity and clamp y to 0 or `WORLD_HEIGHT`.
    pub fn reflection(self) -> (r: Reflection)
        ensures
            r.axis == self.spec_axis(),
            r.boundary == self.spec_boundary(),
    {
        match self {
            WorldEdge::Left => Reflection { axis: Axis::X, boundary: 0 },
            WorldEdge::Right => Reflection { axis: Axis::X, boundary: WORLD_WIDTH },
            WorldEdge::Top => Reflection { axis: Axis::Y, boundary: 0 },
            WorldEdge::Bottom => Reflection { axis: Axis::Y, boundary: WORLD_HEIGHT },
        }
    }
}

} // verus!
