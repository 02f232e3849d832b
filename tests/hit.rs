use raytracer::hit::{closest_hit, order_key, Hit, Roots};

fn key(t: f32) -> i64 {
    order_key(t.to_bits())
}

fn roots(near: f32, far: f32) -> Roots {
    Roots { near: key(near), far: key(far) }
}

#[test]
fn order_key_keeps_float_order() {
    let values = [f32::NEG_INFINITY, -2.5, -1.0, -0.001, 0.0, 0.001, 0.5, 1.0, 1000.0, f32::INFINITY];
    for i in 0..values.len() {
        for j in 0..values.len() {
            assert_eq!(key(values[i]) < key(values[j]), values[i] < values[j]);
        }
    }
}

#[test]
fn order_key_exact_values() {
    assert_eq!(order_key(0), 0);
    assert_eq!(order_key(0x8000_0000), 0);
    assert_eq!(order_key(5), 5);
    assert_eq!(order_key(0x8000_0005), -5);
    assert_eq!(order_key(0x7f80_0000), 0x7f80_0000);
    assert_eq!(order_key(0xffff_ffff), -0x7fff_ffff);
    assert_eq!(key(-0.0), key(0.0));
}

#[test]
fn sphere_ahead_is_hit_at_near_root() {
    // centre (0,0,-1), radius 0.5, ray from the origin along -z
    let r = roots(0.5, 1.5);
    assert_eq!(r.hit(key(0.001), key(f32::INFINITY)), Some(key(0.5)));
}

#[test]
fn near_root_behind_falls_back_to_far_root() {
    // the ray starts inside the sphere
    let r = roots(-0.5, 0.5);
    assert_eq!(r.hit(key(0.001), key(f32::INFINITY)), Some(key(0.5)));
}

#[test]
fn roots_outside_window_give_no_hit() {
    let r = roots(2.0, 3.0);
    assert_eq!(r.hit(key(0.001), key(1.0)), None);
    let behind = roots(-3.0, -2.0);
    assert_eq!(behind.hit(key(0.001), key(f32::INFINITY)), None);
}

#[test]
fn window_bounds_are_excluded() {
    let r = Roots { near: 10, far: 20 };
    assert_eq!(r.hit(10, 30), Some(20));
    assert_eq!(r.hit(10, 20), None);
    assert_eq!(r.hit(5, 10), None);
    assert_eq!(r.hit(9, 11), Some(10));
}

#[test]
fn ray_leaving_surface_does_not_hit_it_again() {
    // origin on the surface of the sphere at (0,0,-1) radius 0.5, pointing
    // outward along +z: the roots are 0 and -1
    let r = roots(0.0, -1.0);
    assert_eq!(r.hit(key(0.001), key(f32::INFINITY)), None);
    let objects = vec![Some(Roots { near: key(-1.0), far: key(0.0) })];
    assert_eq!(closest_hit(&objects, key(0.001), key(f32::INFINITY)), None);
    // a tiny positive root from rounding is rejected too
    let objects = vec![Some(roots(-1.0, 0.0004))];
    assert_eq!(closest_hit(&objects, key(0.001), key(f32::INFINITY)), None);
}

#[test]
fn closest_hit_takes_smaller_t_in_either_order() {
    let a = Some(roots(0.5, 1.5));
    let b = Some(roots(0.7, 1.7));
    let lo = key(0.001);
    let hi = key(f32::INFINITY);
    assert_eq!(closest_hit(&vec![a, b], lo, hi), Some(Hit { index: 0, t: key(0.5) }));
    assert_eq!(closest_hit(&vec![b, a], lo, hi), Some(Hit { index: 1, t: key(0.5) }));
}

#[test]
fn closest_hit_later_object_can_be_closer() {
    let objects = vec![Some(Roots { near: 50, far: 60 }), None, Some(Roots { near: 20, far: 70 })];
    assert_eq!(closest_hit(&objects, 0, 100), Some(Hit { index: 2, t: 20 }));
}

#[test]
fn closest_hit_tie_keeps_first_object() {
    let objects = vec![Some(Roots { near: 30, far: 40 }), Some(Roots { near: 30, far: 35 })];
    assert_eq!(closest_hit(&objects, 0, 100), Some(Hit { index: 0, t: 30 }));
}

#[test]
fn closest_hit_uses_far_root_when_near_is_behind() {
    let objects = vec![Some(Roots { near: 40, far: 90 }), Some(Roots { near: -5, far: 25 })];
    assert_eq!(closest_hit(&objects, 0, 100), Some(Hit { index: 1, t: 25 }));
}

#[test]
fn closest_hit_empty_and_missing() {
    assert_eq!(closest_hit(&vec![], 0, 100), None);
    assert_eq!(closest_hit(&vec![None, None], 0, 100), None);
    let objects = vec![Some(Roots { near: 150, far: 160 }), Some(Roots { near: -20, far: -10 })];
    assert_eq!(closest_hit(&objects, 0, 100), None);
}
