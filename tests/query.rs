use quantum::handle::PhysicsHandle;
use quantum::query::{contact_set, nearest_other, Hit};

fn h(i: u32) -> PhysicsHandle {
    PhysicsHandle::new(i, 0)
}

fn hit(b: u32, sensor: bool, dynamic: bool, dist: f32) -> Hit {
    Hit { body: h(b), sensor, dynamic, dist_key: dist.to_bits() }
}

#[test]
fn contact_set_excludes_self_sensors_and_fixed_bodies() {
    let hits = vec![
        hit(0, false, true, 0.0),
        hit(1, false, true, 3.0),
        hit(2, true, true, 1.0),
        hit(3, false, false, 2.0),
        hit(4, false, true, 4.0),
    ];
    let r = contact_set(h(0), &hits);
    assert_eq!(r.len(), 2);
    assert!(r.contains(&h(1)));
    assert!(r.contains(&h(4)));
}

#[test]
fn contact_set_lists_each_body_once() {
    let hits = vec![hit(1, false, true, 3.0), hit(1, false, true, 3.0), hit(2, true, true, 1.0), hit(2, false, true, 1.0)];
    let r = contact_set(h(0), &hits);
    assert_eq!(r, vec![h(1), h(2)]);
}

#[test]
fn contact_set_of_nothing_is_empty() {
    assert!(contact_set(h(0), &Vec::new()).is_empty());
    assert!(contact_set(h(0), &vec![hit(0, false, true, 0.0)]).is_empty());
}

#[test]
fn nearest_of_three_bodies_in_range() {
    // bodies at 5, 20 and 50 from the probe; a probe of range 30 reports the first two
    let hits = vec![hit(7, false, true, 20.0), hit(8, false, true, 5.0)];
    assert_eq!(nearest_other(h(1), &hits), Some(h(8)));
    let all = vec![hit(9, false, true, 50.0), hit(7, false, true, 20.0), hit(8, false, true, 5.0)];
    assert_eq!(nearest_other(h(1), &all), Some(h(8)));
}

#[test]
fn nearest_is_none_without_another_dynamic_body() {
    assert_eq!(nearest_other(h(1), &Vec::new()), None);
    let hits = vec![hit(1, false, true, 0.0), hit(2, true, true, 1.0), hit(3, false, false, 1.0)];
    assert_eq!(nearest_other(h(1), &hits), None);
}

#[test]
fn nearest_tie_goes_to_first_found() {
    let hits = vec![hit(4, false, true, 2.0), hit(5, false, true, 2.0)];
    assert_eq!(nearest_other(h(1), &hits), Some(h(4)));
}

#[test]
fn nearest_skips_sensors_even_when_closer() {
    let hits = vec![hit(4, true, true, 1.0), hit(5, false, true, 9.0)];
    assert_eq!(nearest_other(h(1), &hits), Some(h(5)));
}
