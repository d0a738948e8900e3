//! Interaction engine of a two-dimensional particle-life world: the colors
//! that key the affinity table, the table itself, the mode-specific policies
//! of the physics, the edges of the world, the partition of a tick's work
//! among workers, and the timing of ticks.

mod camera;
mod color;
mod forces;
mod physics;
mod schedule;
mod timer;
mod world;

pub use camera::{CameraMoveRequest, CameraZoomRequest};
pub use color::{ParticleColor, NUM_COLORS};
pub use forces::{ForcesConfig, NUM_CELLS};
pub use physics::{BoundaryPolicy, PhysicsMode};
pub use schedule::{JobChunk, accumulate, chunk_accelerations, merge_chunk, plan_for_pool, plan_jobs};
pub use timer::{ActiveMeasurement, Timer};
pub use threadpool::ThreadPool;
pub use world::{Axis, Reflection, WorldEdge, WORLD_HEIGHT, WORLD_WIDTH};
