use vrc_canvas::osc::pen_handle::{PenState, Point};
use vrc_canvas::single::Single;

fn single(value: f32) -> Single {
    Single::from_bits(value.to_bits())
}

fn point(x: f32, y: f32) -> Point {
    Point { x: single(x), y: single(y) }
}

#[test]
fn idle_from_pos_keeps_the_coordinates() {
    let state = PenState::idle_from_pos(point(3.0, -2.0));
    assert!(matches!(state, PenState::Idle(x, y) if x.bits == 3.0f32.to_bits() && y.bits == (-2.0f32).to_bits()));
    assert!(!state.is_drawing());
}

#[test]
fn drawing_from_pos_keeps_the_coordinates() {
    let state = PenState::drawing_from_pos(point(0.25, 640.0));
    assert!(matches!(state, PenState::Drawing(x, y) if x.bits == 0.25f32.to_bits() && y.bits == 640.0f32.to_bits()));
    assert!(state.is_drawing());
}

#[test]
fn pos_is_the_same_for_both_variants() {
    assert_eq!(PenState::Idle(single(5.0), single(7.5)).pos(), point(5.0, 7.5));
    assert_eq!(PenState::Drawing(single(5.0), single(7.5)).pos(), point(5.0, 7.5));
}

#[test]
fn enable_drawing_puts_an_idle_pen_down() {
    let mut state = PenState::idle_from_pos(point(5.0, 7.5));
    state.enable_drawing();
    assert_eq!(state, PenState::Drawing(single(5.0), single(7.5)));
}

#[test]
fn enable_drawing_leaves_a_drawing_pen_alone() {
    let mut state = PenState::drawing_from_pos(point(1.0, 2.0));
    state.enable_drawing();
    assert_eq!(state, PenState::Drawing(single(1.0), single(2.0)));
    state.enable_drawing();
    assert_eq!(state, PenState::Drawing(single(1.0), single(2.0)));
}

#[test]
fn the_default_pen_is_idle_at_the_origin() {
    assert_eq!(PenState::default(), PenState::Idle(single(0.0), single(0.0)));
    assert!(matches!(PenState::default(), PenState::Idle(x, y) if x.bits == 0 && y.bits == 0));
}

#[test]
fn states_are_equal_when_variant_and_coordinates_are() {
    let idle = PenState::Idle(single(5.0), single(5.0));
    let drawing = PenState::Drawing(single(5.0), single(5.0));
    assert_eq!(idle, PenState::Idle(single(5.0), single(5.0)));
    assert_ne!(idle, drawing);
    assert_ne!(idle, PenState::Idle(single(5.0), single(5.5)));
    assert_ne!(idle, PenState::Idle(single(4.0), single(5.0)));
}

#[test]
fn equal_states_may_differ_in_the_sign_of_zero() {
    assert_eq!(PenState::Idle(single(0.0), single(-0.0)), PenState::Idle(single(-0.0), single(0.0)));
}

#[test]
fn a_state_with_nan_equals_no_state() {
    let state = PenState::Idle(single(f32::NAN), single(1.0));
    assert_ne!(state, state);
}
