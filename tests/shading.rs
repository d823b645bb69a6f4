use raytracer::scene::{rotating_objects, ObjectType};
use raytracer::shading::{first_tile, nearest_hit, reaches_light};

#[test]
fn nearest_of_no_hits_is_none() {
    assert_eq!(nearest_hit(&vec![], None), None);
    assert_eq!(nearest_hit(&vec![None, None], None), None);
}

#[test]
fn nearest_picks_smallest_key() {
    let keys = vec![Some(30), None, Some(10), Some(20)];
    assert_eq!(nearest_hit(&keys, None), Some(2));
}

#[test]
fn nearest_skips_originating_object() {
    let keys = vec![Some(30), None, Some(10), Some(20)];
    assert_eq!(nearest_hit(&keys, Some(2)), Some(3));
    assert_eq!(nearest_hit(&vec![None, Some(5)], Some(1)), None);
}

#[test]
fn nearest_tie_goes_to_earlier_object() {
    let keys = vec![None, Some(4), Some(9), Some(4)];
    assert_eq!(nearest_hit(&keys, None), Some(1));
    assert_eq!(nearest_hit(&keys, Some(1)), Some(3));
}

#[test]
fn nearest_orders_float_distances_by_bits() {
    let keys = vec![Some(9.0f64.to_bits()), Some(5.0f64.to_bits()), Some(5.5f64.to_bits())];
    assert_eq!(nearest_hit(&keys, None), Some(1));
}

#[test]
fn blocker_casts_shadow() {
    // Receiver 0 (floor), caster 1 in the way of the light.
    let can_cast = vec![false, true, true];
    assert!(!reaches_light(0, true, &can_cast, &vec![false, true, false]));
    // With the blocker out of the way the point is lit.
    assert!(reaches_light(0, true, &can_cast, &vec![false, false, false]));
}

#[test]
fn shadow_needs_receiver_and_caster() {
    let can_cast = vec![false, false, true];
    // Object 1 is in the way but casts no shadow.
    assert!(reaches_light(0, true, &can_cast, &vec![false, true, false]));
    // A surface that receives no shadow is always lit.
    assert!(reaches_light(0, false, &can_cast, &vec![false, true, true]));
    // The receiver never shadows itself.
    assert!(reaches_light(2, true, &can_cast, &vec![false, false, true]));
}

#[test]
fn checker_tiles_alternate() {
    assert!(!first_tile(100, 100));
    assert!(first_tile(101, 100));
    assert!(first_tile(100, 103));
    assert!(!first_tile(255, 1));
}

#[test]
fn only_spheres_rotate() {
    let kinds = vec![ObjectType::Disc, ObjectType::Sphere, ObjectType::Sphere, ObjectType::Sphere];
    assert_eq!(rotating_objects(&kinds), vec![1, 2, 3]);
    assert_eq!(rotating_objects(&vec![ObjectType::Disc]), Vec::<usize>::new());
    let mixed = vec![ObjectType::Sphere, ObjectType::Disc, ObjectType::Sphere];
    assert_eq!(rotating_objects(&mixed), vec![0, 2]);
}
