use vstd::prelude::*;

verus! {

/// The physics law of a simulation, fixed for its lifetime.
#[derive(Clone, Copy, Debug, PartialEq, Eq, Structural)]
pub enum PhysicsMode {
    /// Bounded inverse-square law; particles bounce off the world's edges.
    Real,
    /// Distance-clamped law with a repulsion core and friction; particles
    /// that leave the world reappear at a random place inside it.
    Emergence,
}

/// What happens to a particle that leaves the world.
#[derive(Clone, Copy, Debug, PartialEq, Eq, Structural)]
pub enum BoundaryPolicy {
    /// The crossed velocity component is negated and the position clamped
    /// onto the crossed edge.
    Reflect,
    /// The position is replaced by a random point inside the world; the
    /// velocity is kept.
    Respawn,
}

impl PhysicsMode {
    /// Whether every velocity is damped by the friction multiplier at the
    /// start of a tick: only under the emergence law.
    pub fn applies_friction(self) -> (r: bool)
        ensures
            r == (self == PhysicsMode::Emergence),
    {
        match self {
            PhysicsMode::Real => false,
            PhysicsMode::Emergence => true,
        }
    }

    /// The boundary policy of this law: reflection under the real law,
    /// respawn under the emergence law.
    pub fn boundary_policy(self) -> (r: BoundaryPolicy)
        ensures
            self == PhysicsMode::Real ==> r == BoundaryPolicy::Reflect,
            self == PhysicsMode::Emergence ==> r == BoundaryPolicy::Respawn,
    {
        match self {
            PhysicsMode::Real => BoundaryPolicy::Reflect,
            PhysicsMode::Emergence => BoundaryPolicy::Respawn,
        }
    }
}

} // verus!
