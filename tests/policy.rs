use sim_lib::{
    Axis, BoundaryPolicy, CameraMoveRequest, CameraZoomRequest, PhysicsMode, Reflection, WorldEdge,
    WORLD_HEIGHT, WORLD_WIDTH,
};

#[test]
fn friction_only_under_emergence() {
    assert!(PhysicsMode::Emergence.applies_friction());
    assert!(!PhysicsMode::Real.applies_friction());
}

#[test]
fn boundary_policy_by_mode() {
    assert_eq!(PhysicsMode::Real.boundary_policy(), BoundaryPolicy::Reflect);
    assert_eq!(PhysicsMode::Emergence.boundary_policy(), BoundaryPolicy::Respawn);
}

#[test]
fn world_size() {
    assert_eq!(WORLD_WIDTH, 4000);
    assert_eq!(WORLD_HEIGHT, 2000);
}

#[test]
fn left_edge_reflects_x_onto_zero() {
    assert_eq!(WorldEdge::Left.reflection(), Reflection { axis: Axis::X, boundary: 0 });
}

#[test]
fn reflection_of_every_edge() {
    assert_eq!(WorldEdge::Right.reflection(), Reflection { axis: Axis::X, boundary: 4000 });
    assert_eq!(WorldEdge::Top.reflection(), Reflection { axis: Axis::Y, boundary: 0 });
    assert_eq!(WorldEdge::Bottom.reflection(), Reflection { axis: Axis::Y, boundary: 2000 });
}

#[test]
fn camera_pan_directions() {
    assert_eq!(CameraMoveRequest::Right.direction(), (1, 0));
    assert_eq!(CameraMoveRequest::Left.direction(), (-1, 0));
    assert_eq!(CameraMoveRequest::Up.direction(), (0, -1));
    assert_eq!(CameraMoveRequest::Down.direction(), (0, 1));
}

#[test]
fn camera_zoom_signs() {
    assert_eq!(CameraZoomRequest::In.sign(), 1);
    assert_eq!(CameraZoomRequest::Out.sign(), -1);
}
