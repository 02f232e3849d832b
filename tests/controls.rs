use raytracer::controls::{camera_step, CameraStep, HeldKeys};

fn none() -> HeldKeys {
    HeldKeys { up: false, down: false, left: false, right: false, zoom_in: false, zoom_out: false }
}

#[test]
fn no_keys_no_change() {
    assert_eq!(camera_step(none()), CameraStep { dx: 0, dy: 0, dfocal: 0, changed: false });
}

#[test]
fn each_key_moves_one_step() {
    assert_eq!(camera_step(HeldKeys { up: true, ..none() }), CameraStep { dx: 0, dy: -1, dfocal: 0, changed: true });
    assert_eq!(camera_step(HeldKeys { down: true, ..none() }), CameraStep { dx: 0, dy: 1, dfocal: 0, changed: true });
    assert_eq!(camera_step(HeldKeys { left: true, ..none() }), CameraStep { dx: -1, dy: 0, dfocal: 0, changed: true });
    assert_eq!(camera_step(HeldKeys { right: true, ..none() }), CameraStep { dx: 1, dy: 0, dfocal: 0, changed: true });
    assert_eq!(camera_step(HeldKeys { zoom_in: true, ..none() }), CameraStep { dx: 0, dy: 0, dfocal: 1, changed: true });
    assert_eq!(camera_step(HeldKeys { zoom_out: true, ..none() }), CameraStep { dx: 0, dy: 0, dfocal: -1, changed: true });
}

#[test]
fn opposite_keys_cancel_but_still_change() {
    let keys = HeldKeys { up: true, down: true, left: true, right: true, zoom_in: true, zoom_out: true };
    assert_eq!(camera_step(keys), CameraStep { dx: 0, dy: 0, dfocal: 0, changed: true });
}
