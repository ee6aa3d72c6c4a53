//! Camera configuration.

use vstd::prelude::*;

verus! {

/// Which camera to open and the frame size to ask for.
pub struct CameraConfig {
    pub index: u32,
    pub width: u32,
    pub height: u32,
}

impl Default for CameraConfig {
    /// The first camera, at 640x480.
    fn default() -> (c: Self)
        ensures
            c.index == 0,
            c.width == 640,
            c.height == 480,
    {
        CameraConfig { index: 0, width: 640, height: 480 }
    }
}

} // verus!
