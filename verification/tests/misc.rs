use ledge_engine::animation::{advance_frame, select_transition, PhysicalInput};
use ledge_engine::conf::WindowSetup;
use ledge_engine::event::{frame_sleep_micros, next_action, LoopAction, WindowSignal};
use ledge_engine::input::keyboard::KeyboardInterface;
use ledge_engine::input::mouse::MouseButton;
use ledge_engine::interfacecontext::ContextBuilder;
use ledge_engine::physics::collision;
use ledge_engine::physics::physics::CollisionWorld;

#[test]
fn window_setup_defaults() {
    let w = WindowSetup::default();
    assert_eq!(w.title, "Empty Title");
    assert!(!w.vsync);
    assert_eq!(w.icon, "");
    assert!(w.srgb);
}

#[test]
fn keyboard_tracks_current_and_last_keys() {
    let mut k = KeyboardInterface::new();
    assert_eq!(k.current_pressed(), None);
    k.set_key(10, true);
    k.set_key(11, true);
    assert_eq!(k.current_pressed(), Some(11));
    assert_eq!(k.last_pressed(), Some(10));
    assert!(k.is_pressed(10) && k.is_pressed(11));
    k.set_key(11, false);
    assert_eq!(k.current_pressed(), None);
    assert_eq!(k.last_pressed(), Some(10));
    assert!(!k.is_pressed(11));
    assert!(k.is_pressed(10));
}

#[test]
fn keyboard_press_then_release() {
    let mut k = KeyboardInterface::new();
    k.set_key(3, true);
    k.set_key(3, false);
    assert!(!k.is_pressed(3));
    assert_eq!(k.current_pressed(), None);
    assert_eq!(k.last_pressed(), None);
}

#[test]
fn transition_takes_first_matching_rule_of_current_state() {
    let ids = vec![4u8, 7, 4];
    let rules = vec![
        vec![PhysicalInput::A, PhysicalInput::D, PhysicalInput::D],
        vec![PhysicalInput::W],
        vec![PhysicalInput::S],
    ];
    assert_eq!(select_transition(&ids, 4, &rules, &PhysicalInput::D), (0, Some(1)));
    assert_eq!(select_transition(&ids, 7, &rules, &PhysicalInput::W), (1, Some(0)));
    assert_eq!(select_transition(&ids, 7, &rules, &PhysicalInput::S), (1, None));
}

#[test]
fn advance_frame_wraps_to_the_first() {
    assert_eq!(advance_frame(0, 3), 1);
    assert_eq!(advance_frame(1, 3), 2);
    assert_eq!(advance_frame(2, 3), 0);
    assert_eq!(advance_frame(0, 1), 0);
}

#[test]
fn loop_actions() {
    assert_eq!(next_action(WindowSignal::CloseRequested), LoopAction::Exit);
    assert_eq!(next_action(WindowSignal::Resized(640, 480)), LoopAction::Resize(640, 480));
    assert_eq!(next_action(WindowSignal::MainEventsCleared), LoopAction::RunFrame);
    assert_eq!(next_action(WindowSignal::Other), LoopAction::Nothing);
}

#[test]
fn frame_sleep_fills_the_frame() {
    assert_eq!(frame_sleep_micros(4000), 12000);
    assert_eq!(frame_sleep_micros(16000), 0);
    assert_eq!(frame_sleep_micros(20000), 0);
    assert_eq!(frame_sleep_micros(0), 16000);
}

#[test]
fn worlds_start_empty() {
    let w: CollisionWorld<u8, u16> = CollisionWorld::new();
    assert!(w.collidables.is_empty() && w.entities.is_empty());
    let v: collision::CollisionWorld<u8, u16> = collision::CollisionWorld::new();
    assert!(v.entities.is_empty());
}

#[test]
fn context_builder_and_buttons() {
    let _c = ContextBuilder::new();
    assert_eq!(MouseButton::Misc(3), MouseButton::Misc(3));
    assert!(MouseButton::Left != MouseButton::Right);
}

use ledge_engine::physics::movement::{facing_tex_coords, take_input, Impulse, MovementInput, MovementState};

fn standing() -> MovementState {
    MovementState { grounded: true, jump_cleared: true, horizontal_move: false, direction: true }
}

#[test]
fn jump_needs_ground_and_a_released_key() {
    let mut s = standing();
    assert_eq!(take_input(&mut s, MovementInput::UpPress), Impulse::Jump);
    assert!(!s.grounded && !s.jump_cleared);
    assert_eq!(take_input(&mut s, MovementInput::UpPress), Impulse::Stay);
    s.grounded = true;
    assert_eq!(take_input(&mut s, MovementInput::UpPress), Impulse::Stay);
    assert_eq!(take_input(&mut s, MovementInput::UpRelease), Impulse::Stay);
    assert!(s.jump_cleared);
    assert_eq!(take_input(&mut s, MovementInput::UpPress), Impulse::Jump);
}

#[test]
fn moving_turns_the_entity() {
    let mut s = standing();
    assert_eq!(take_input(&mut s, MovementInput::Left), Impulse::Left);
    assert!(!s.direction && s.horizontal_move);
    assert_eq!(facing_tex_coords(s.direction), [[1, 0], [1, 1], [0, 0], [0, 1]]);
    assert_eq!(take_input(&mut s, MovementInput::Right), Impulse::Right);
    assert!(s.direction);
    assert_eq!(facing_tex_coords(s.direction), [[0, 0], [0, 1], [1, 0], [1, 1]]);
}
