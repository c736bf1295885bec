use raytracer::interval::Interval;
use raytracer::sphere::first_root;

#[test]
fn first_root_takes_the_near_root_inside_the_range() {
    let range = Interval::new(0.0f32, f32::INFINITY);
    assert_eq!(first_root(range, 0.5, 1.5), Some(0.5));
}

#[test]
fn first_root_takes_the_far_root_when_the_near_one_lies_behind() {
    let range = Interval::new(0.0f32, f32::INFINITY);
    assert_eq!(first_root(range, -0.5, 0.5), Some(0.5));
}

#[test]
fn first_root_finds_nothing_when_both_roots_lie_behind() {
    let range = Interval::new(0.0f32, f32::INFINITY);
    assert_eq!(first_root(range, -1.5, -0.5), None);
}

#[test]
fn first_root_leaves_the_bounds_out() {
    let range = Interval::new(0i32, 10i32);
    assert_eq!(first_root(range, 0, 10), None);
    assert_eq!(first_root(range, 0, 9), Some(9));
    assert_eq!(first_root(range, 1, 10), Some(1));
}

#[test]
fn first_root_takes_the_far_root_when_the_near_one_lies_past_a_nearer_strike() {
    let range = Interval::new(0i32, 4i32);
    assert_eq!(first_root(range, 5, 8), None);
    assert_eq!(first_root(range, -3, 2), Some(2));
    assert_eq!(first_root(range, 1, 3), Some(1));
}

#[test]
fn first_root_tries_the_near_root_first_even_if_it_is_the_larger() {
    let range = Interval::new(0i32, 10i32);
    assert_eq!(first_root(range, 7, 3), Some(7));
}

#[test]
fn first_root_of_a_touching_ray_is_the_double_root() {
    let range = Interval::new(0.0f32, f32::INFINITY);
    assert_eq!(first_root(range, 2.0, 2.0), Some(2.0));
}

#[test]
fn first_root_refuses_roots_that_are_not_numbers() {
    let range = Interval::new(0.0f32, f32::INFINITY);
    assert_eq!(first_root(range, f32::NAN, f32::NAN), None);
    assert_eq!(first_root(range, f32::NAN, 3.0), Some(3.0));
}
