use vstd::prelude::*;

verus! {

/// A request to pan the camera by one step.
#[derive(Clone, Copy, Debug, PartialEq, Eq, Structural)]
pub enum CameraMoveRequest {
    Right,
    Left,
    Up,
    Down,
}

/// A request to zoom the camera by one step.
#[derive(Clone, Copy, Debug, PartialEq, Eq, Structural)]
pub enum CameraZoomRequest {
    In,
    Out,
}

impl CameraMoveRequest {
    /// The unit direction of the pan in screen axes (y points down): right
    /// is `(1, 0)`, left `(-1, 0)`, up `(0, -1)`, down `(0, 1)`.
    pub fn direction(self) -> (r: (i8, i8))
        ensures
            self == CameraMoveRequest::Right ==> r == (1i8, 0i8),
            self == CameraMoveRequest::Left ==> r == (-1i8, 0i8),
            self == CameraMoveRequest::Up ==> r == (0i8, -1i8),
            self == CameraMoveRequest::Down ==> r == (0i8, 1i8),
    {
        match self {
            CameraMoveRequest::Right => (1, 0),
            CameraMoveRequest::Left => (-1, 0),
            CameraMoveRequest::Up => (0, -1),
            CameraMoveRequest::Down => (0, 1),
        }
    }
}

impl CameraZoomRequest {
    /// The sign of the change of scale: `1` to zoom in, `-1` to zoom out.
    pub fn sign(self) -> (r: i8)
        ensures
            self == CameraZoomRequest::In ==> r == 1,
            self == CameraZoomRequest::Out ==> r == -1,
    {
        match self {
            CameraZoomRequest::In => 1,
            CameraZoomRequest::Out => -1,
        }
    }
}

} // verus!
