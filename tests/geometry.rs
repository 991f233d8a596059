use rtiow::hittable_list::{closest_hit, HittableList};
use rtiow::ray::order_key;
use rtiow::sphere::{select_root, Root};

fn key(t: f64) -> u64 {
    order_key(t.to_bits())
}

#[test]
fn order_key_exact_values() {
    assert_eq!(order_key(0), 0x8000_0000_0000_0000);
    assert_eq!(order_key(0x8000_0000_0000_0000), 0x7fff_ffff_ffff_ffff);
    assert_eq!(order_key(1.0f64.to_bits()), 0xbff0_0000_0000_0000);
    assert_eq!(order_key((-1.0f64).to_bits()), 0x400f_ffff_ffff_ffff);
}

#[test]
fn order_key_follows_parameter_order() {
    let ts = [
        f64::NEG_INFINITY,
        -1.5,
        -0.5,
        -0.0,
        0.0,
        0.001,
        0.5,
        1.5,
        1.0e300,
        f64::INFINITY,
    ];
    for i in 0..ts.len() {
        for j in 0..ts.len() {
            assert_eq!(key(ts[i]) < key(ts[j]), i < j);
        }
    }
}

#[test]
fn sphere_ahead_hits_at_near_root() {
    // Sphere at (0,0,-1) with radius 0.5, ray from the origin along -z:
    // the roots of the quadratic are 0.5 and 1.5.
    let r = select_root(key(0.5), key(1.5), key(0.0), key(f64::INFINITY));
    assert_eq!(r, Some(Root::Near));
}

#[test]
fn sphere_behind_is_not_hit() {
    // The same sphere, ray along +z: both roots lie behind the origin.
    let r = select_root(key(-1.5), key(-0.5), key(0.0), key(f64::INFINITY));
    assert_eq!(r, None);
}

#[test]
fn origin_inside_sphere_hits_far_root() {
    let r = select_root(key(-0.5), key(0.5), key(0.001), key(f64::INFINITY));
    assert_eq!(r, Some(Root::Far));
}

#[test]
fn roots_beyond_range_are_not_hit() {
    let r = select_root(key(2.0), key(3.0), key(0.001), key(1.0));
    assert_eq!(r, None);
    let edge = select_root(key(1.0), key(3.0), key(0.001), key(1.0));
    assert_eq!(edge, Some(Root::Near));
}

#[test]
fn closest_hit_picks_smallest_parameter() {
    let hits = vec![Some(key(3.0)), None, Some(key(0.7)), Some(key(2.0))];
    assert_eq!(closest_hit(&hits), Some(2));
}

#[test]
fn closest_hit_none_without_hits() {
    let empty: Vec<Option<u64>> = vec![];
    assert_eq!(closest_hit(&empty), None);
    assert_eq!(closest_hit(&vec![None, None, None]), None);
}

#[test]
fn closest_hit_equal_parameters_last_wins() {
    let hits = vec![Some(key(1.0)), Some(key(1.0)), Some(key(4.0))];
    assert_eq!(closest_hit(&hits), Some(1));
}

#[test]
fn closest_hit_same_parameter_in_any_order() {
    let ts = [Some(5.0), None, Some(0.25), Some(9.0), Some(1.0)];
    let orders: [[usize; 5]; 4] = [
        [0, 1, 2, 3, 4],
        [4, 3, 2, 1, 0],
        [2, 0, 4, 1, 3],
        [1, 3, 0, 4, 2],
    ];
    for order in orders.iter() {
        let hits: Vec<Option<u64>> = order.iter().map(|&i| ts[i].map(key)).collect();
        let i = closest_hit(&hits).unwrap();
        assert_eq!(hits[i], Some(key(0.25)));
    }
}

#[test]
fn world_list_add_and_clear() {
    let mut world: HittableList<u32> = HittableList::new();
    assert_eq!(world.len(), 0);
    world.add(7);
    world.add(9);
    assert_eq!(world.len(), 2);
    assert_eq!(world.objects, vec![7, 9]);
    world.clear();
    assert_eq!(world.len(), 0);
    let d: HittableList<u32> = HittableList::default();
    assert!(d.objects.is_empty());
}
