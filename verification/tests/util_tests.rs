use bomber_core::components::Pos;
use bomber_core::schedule::Cadence;
use bomber_core::utils::{cell_to_world, is_equal, is_equal_approximate};

#[test]
fn exact_equality_compares_both_coordinates() {
    let a = Pos { x: 3, y: 4 };
    assert!(is_equal(&a, &Pos { x: 3, y: 4 }));
    assert!(!is_equal(&a, &Pos { x: 3, y: 5 }));
    assert!(!is_equal(&a, &Pos { x: 4, y: 4 }));
}

#[test]
fn approximate_equality_window_is_half_a_cell() {
    assert!(is_equal_approximate(320, 320, 320, 320));
    assert!(is_equal_approximate(335, 320, 320, 320));
    assert!(!is_equal_approximate(336, 320, 320, 320));
    assert!(is_equal_approximate(304, 320, 320, 320));
    assert!(!is_equal_approximate(303, 320, 320, 320));
    assert!(!is_equal_approximate(320, 336, 320, 320));
}

#[test]
fn aligned_positions_agree_exactly_or_not_at_all() {
    let ax = cell_to_world(10);
    let bx = cell_to_world(11);
    let y = cell_to_world(2);
    assert_eq!(ax, 320);
    assert_eq!(bx, 352);
    assert!(is_equal_approximate(ax, y, ax, y));
    assert!(!is_equal_approximate(ax, y, bx, y));
}

#[test]
fn cadence_fires_on_its_interval() {
    let mut c = Cadence::new(500, 0);
    assert!(c.fire(0));
    assert!(!c.fire(499));
    assert!(c.fire(500));
    assert!(!c.fire(900));
    assert!(c.fire(1200));
}
