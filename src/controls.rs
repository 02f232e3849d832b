use vstd::prelude::*;

verus! {

/// The camera keys held down during one frame.
#[derive(Clone, Copy, Debug, PartialEq, Eq)]
pub struct HeldKeys {
    pub up: bool,
    pub down: bool,
    pub left: bool,
    pub right: bool,
    pub zoom_in: bool,
    pub zoom_out: bool,
}

/// A camera change for one frame, in steps of one tenth of a scene unit.
#[derive(Clone, Copy, Debug, PartialEq, Eq)]
pub struct CameraStep {
    pub dx: i32,
    pub dy: i32,
    pub dfocal: i32,
    pub changed: bool,
}

pub open spec fn step_of(held: bool, back: bool) -> int {
    (if held { 1int } else { 0int }) - (if back { 1int } else { 0int })
}

/// What the held keys ask of the camera: `left`/`right` move the origin
/// along x, `up`/`down` along y (up lowers y), `zoom_in`/`zoom_out` lengthen
/// or shorten the focal length. `changed` tells whether any key was held,
/// that is whether the frame must be rendered again.
pub fn camera_step(keys: HeldKeys) -> (r: CameraStep)
    ensures
        r.dx == step_of(keys.right, keys.left),
        r.dy == step_of(keys.down, keys.up),
        r.dfocal == step_of(keys.zoom_in, keys.zoom_out),
        r.changed == (keys.up || keys.down || keys.left || keys.right || keys.zoom_in
            || keys.zoom_out),
{
    let mut dx: i32 = 0;
    let mut dy: i32 = 0;
    let mut dfocal: i32 = 0;
    if keys.up {
        dy = dy - 1;
    }
    if keys.down {
        dy = dy + 1;
    }
    if keys.left {
        dx = dx - 1;
    }
    if keys.right {
        dx = dx + 1;
    }
    if keys.zoom_in {
        dfocal = dfocal + 1;
    }
    if keys.zoom_out {
        dfocal = dfocal - 1;
    }
    let changed = keys.up || keys.down || keys.left || keys.right || keys.zoom_in || keys.zoom_out;
    CameraStep { dx, dy, dfocal, changed }
}

} // verus!
