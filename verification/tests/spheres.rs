use raytracer::spheres::{next_power_of_two, SphereCapacity};

#[test]
fn next_power_of_two_values() {
    assert_eq!(next_power_of_two(0), 1);
    assert_eq!(next_power_of_two(1), 1);
    assert_eq!(next_power_of_two(2), 2);
    assert_eq!(next_power_of_two(3), 4);
    assert_eq!(next_power_of_two(5), 8);
    assert_eq!(next_power_of_two(1024), 1024);
    assert_eq!(next_power_of_two(1025), 2048);
    assert_eq!(next_power_of_two(usize::MAX / 2 + 1), usize::MAX / 2 + 1);
}

#[test]
fn next_power_of_two_agrees_with_std() {
    for n in 0usize..5000 {
        assert_eq!(next_power_of_two(n), n.next_power_of_two());
    }
}

#[test]
fn new_world_has_room_for_at_least_one() {
    let empty = SphereCapacity::new(0);
    assert_eq!(empty.capacity, 1);
    assert!(empty.needs_bind_group_update);
    let one = SphereCapacity::new(1);
    assert_eq!(one.capacity, 1);
    let five = SphereCapacity::new(5);
    assert_eq!(five.capacity, 5);
    assert!(five.needs_bind_group_update);
}

#[test]
fn update_within_capacity_changes_nothing() {
    let mut s = SphereCapacity { capacity: 5, needs_bind_group_update: false };
    assert!(!s.update(5));
    assert!(!s.update(0));
    assert_eq!(s.capacity, 5);
    assert!(!s.needs_bind_group_update);
}

#[test]
fn update_beyond_capacity_grows_to_a_power_of_two() {
    let mut s = SphereCapacity { capacity: 5, needs_bind_group_update: false };
    assert!(s.update(6));
    assert_eq!(s.capacity, 8);
    assert!(s.needs_bind_group_update);
    assert!(s.update(9));
    assert_eq!(s.capacity, 16);
    assert!(s.update(17));
    assert_eq!(s.capacity, 32);
}

#[test]
fn second_update_on_the_same_count_reuses_the_buffer() {
    let mut s = SphereCapacity::new(2);
    assert!(s.update(100));
    let after_first = s.capacity;
    assert_eq!(after_first, 128);
    assert!(!s.update(100));
    assert_eq!(s.capacity, after_first);
}

#[test]
fn capacity_never_shrinks_and_holds_the_count() {
    let mut s = SphereCapacity::new(3);
    let counts = [1usize, 7, 4, 20, 0, 33, 33, 64, 65, 2];
    for &count in counts.iter() {
        let before = s.capacity;
        s.update(count);
        assert!(s.capacity >= before);
        assert!(s.capacity >= count);
    }
    assert_eq!(s.capacity, 128);
}

#[test]
fn buffer_size_in_bytes() {
    let s = SphereCapacity::new(3);
    assert_eq!(s.buffer_size(16), 48);
    let mut t = SphereCapacity::new(0);
    assert_eq!(t.buffer_size(16), 16);
    t.update(9);
    assert_eq!(t.buffer_size(16), 256);
}

#[test]
fn try_update_refuses_counts_past_the_largest_power_of_two() {
    let mut s = SphereCapacity::new(4);
    assert_eq!(s.try_update(usize::MAX / 2 + 2), None);
    assert_eq!(s.capacity, 4);
    assert_eq!(s.try_update(4), Some(false));
    assert_eq!(s.try_update(5), Some(true));
    assert_eq!(s.capacity, 8);
    let mut big = SphereCapacity::new(usize::MAX);
    assert_eq!(big.try_update(usize::MAX), Some(false));
}
