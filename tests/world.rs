use lib_simulation::brain::weight_count_of;
use lib_simulation::eye::bearing;
use lib_simulation::geometry::{advance, wrap, WORLD_SIZE};
use lib_simulation::simulation::{steer_speed, turn_steps};
use lib_simulation::{hsv_to_rgb, rgba_from_bytes, Brain, Chromosome, Eye, Point, Rgba};

#[test]
fn wrap_brings_coordinates_back_onto_the_torus() {
    assert_eq!(wrap(1_000_500), 500);
    assert_eq!(wrap(-1), 999_999);
    assert_eq!(wrap(0), 0);
    assert_eq!(wrap(WORLD_SIZE), 0);
    assert_eq!(wrap(999_999), 999_999);
}

#[test]
fn moving_past_the_right_edge_reappears_on_the_left() {
    // heading 54 is 270 degrees, which points along +x
    let p = advance(Point { x: 999_000, y: 500_000 }, 54, 3000);
    assert_eq!(p, Point { x: 2000, y: 500_000 });
    assert!(p.x >= 0 && p.x < WORLD_SIZE);
}

#[test]
fn heading_zero_moves_along_y() {
    let p = advance(Point { x: 10, y: 999_999 }, 0, 2000);
    assert_eq!(p, Point { x: 10, y: 1999 });
}

#[test]
fn bearing_finds_the_nearest_heading() {
    assert_eq!(bearing(0, 1000), 0);
    assert_eq!(bearing(-1000, 0), 18);
    assert_eq!(bearing(0, -1000), 36);
    assert_eq!(bearing(1000, 0), 54);
}

#[test]
fn empty_bytes_give_opaque_white() {
    assert_eq!(rgba_from_bytes(&[]), Rgba { r: 255, g: 255, b: 255, a: 255 });
}

#[test]
fn colors_of_bytes() {
    assert_eq!(rgba_from_bytes(&[0, 0, 0, 0]), Rgba { r: 153, g: 61, b: 61, a: 255 });
    assert_eq!(rgba_from_bytes(&[255]), Rgba { r: 140, g: 102, b: 255, a: 255 });
    assert_eq!(hsv_to_rgb(0, 0, 1000), (255, 255, 255));
    assert_eq!(hsv_to_rgb(120, 1000, 1000), (0, 255, 0));
}

#[test]
fn eye_sees_a_target_ahead_in_the_middle_cell() {
    let eye = Eye::new(45, 250_000, 9);
    let origin = Point { x: 500_000, y: 500_000 };
    let ahead = vec![Point { x: 500_000, y: 600_000 }];
    let v = eye.process_vision(origin, 0, &ahead);
    assert_eq!(v, vec![0, 0, 0, 0, 840, 0, 0, 0, 0]);
    // the same point twice adds up
    let twice = vec![ahead[0], ahead[0]];
    assert_eq!(eye.process_vision(origin, 0, &twice)[4], 1680);
}

#[test]
fn eye_ignores_targets_behind_or_out_of_range() {
    let eye = Eye::new(45, 250_000, 9);
    let origin = Point { x: 500_000, y: 500_000 };
    let behind = vec![Point { x: 500_000, y: 400_000 }];
    assert_eq!(eye.process_vision(origin, 0, &behind), vec![0; 9]);
    let far = vec![Point { x: 500_000, y: 800_000 }];
    assert_eq!(eye.process_vision(origin, 0, &far), vec![0; 9]);
    assert_eq!(Eye::default().cells(), 9);
}

#[test]
fn brain_propagates_through_both_layers() {
    assert_eq!(weight_count_of(1), 10);
    // hidden neuron 0 has bias 1.0; output 0 weighs it by 2.0
    let genes = vec![1000, 0, 0, 0, 0, 2000, 0, 0, 0, 0];
    let brain = Brain::from_chromosome(Chromosome::from_genes(genes.clone()), 1);
    assert_eq!(brain.propagate(&vec![0]), vec![2000, 0]);
    assert_eq!(brain.as_chromosome().into_genes(), genes);
    // negative sums are cut to zero
    let genes = vec![-1000, 0, 0, 0, 0, 2000, 0, 0, 0, 0];
    let brain = Brain::from_chromosome(Chromosome::from_genes(genes), 1);
    assert_eq!(brain.propagate(&vec![500]), vec![0, 0]);
}

#[test]
fn steering_is_held_within_bounds() {
    assert_eq!(steer_speed(2000, 0, 200_000, 700, 3500), 2000);
    assert_eq!(steer_speed(2000, 1, 200_000, 700, 3500), 3000);
    assert_eq!(steer_speed(3000, 10, 200_000, 700, 3500), 3500);
    assert_eq!(turn_steps(523, 523), 6);
    assert_eq!(turn_steps(100_000, 628), 7);
    assert_eq!(turn_steps(86, 628), 0);
}
