use blend2d::capacity::{
    align_up, fitting_capacity, growing_capacity, max_capacity, next_power_of_two,
};

#[test]
fn align_up_rounds_to_the_next_multiple() {
    assert_eq!(align_up(0, 32), 0);
    assert_eq!(align_up(1, 32), 32);
    assert_eq!(align_up(32, 32), 32);
    assert_eq!(align_up(44, 32), 64);
    assert_eq!(align_up(65, 64), 128);
}

#[test]
fn next_power_of_two_is_the_least_one() {
    assert_eq!(next_power_of_two(0), 1);
    assert_eq!(next_power_of_two(1), 1);
    assert_eq!(next_power_of_two(3), 4);
    assert_eq!(next_power_of_two(66), 128);
    assert_eq!(next_power_of_two(1024), 1024);
    assert_eq!(next_power_of_two(1025), 2048);
    assert_eq!(next_power_of_two(0x4000_0000), 0x4000_0000);
    assert_eq!(next_power_of_two(0x4000_0001), 0x8000_0000);
    assert_eq!(next_power_of_two(usize::MAX / 2 + 1), usize::MAX / 2 + 1);
    assert_eq!(next_power_of_two(usize::MAX / 2), usize::MAX / 2 + 1);
}

#[test]
fn fitting_capacity_fills_the_aligned_allocation() {
    assert_eq!(fitting_capacity(4, 1), 6);
    assert_eq!(fitting_capacity(4, 10), 14);
    assert_eq!(fitting_capacity(4, 22), 22);
    assert_eq!(fitting_capacity(4, 23), 30);
    assert_eq!(fitting_capacity(1, 1), 24);
    assert_eq!(fitting_capacity(1, 100), 120);
    assert_eq!(fitting_capacity(8, 12), 15);
    assert_eq!(fitting_capacity(1, 8388608), 8388632);
    assert_eq!(fitting_capacity(1, max_capacity(1)), max_capacity(1));
}

#[test]
fn growing_capacity_leaves_room() {
    assert_eq!(growing_capacity(4, 1), 22);
    assert_eq!(growing_capacity(4, 22), 54);
    assert_eq!(growing_capacity(1, 1), 88);
    assert_eq!(growing_capacity(1, 100), 216);
    assert_eq!(growing_capacity(8, 1), 11);
    assert_eq!(growing_capacity(8, 12), 27);
    assert_eq!(growing_capacity(1, 8388608), 16777176);
    assert_eq!(growing_capacity(4, 3000000), 4194294);
    assert_eq!(growing_capacity(1, max_capacity(1)), max_capacity(1));
}

#[test]
fn max_capacity_divides_the_address_space() {
    assert_eq!(max_capacity(1), usize::MAX - 40);
    assert_eq!(max_capacity(4), (usize::MAX - 40) / 4);
    assert_eq!(max_capacity(32), (usize::MAX - 40) / 32);
}
