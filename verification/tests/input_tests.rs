use winit::keyboard::KeyCode as W;
use micro3d::input::utils::{
    all_keys_pressed, any_key_pressed, crouch_pressed, exit_requested, jump_pressed, should_exit,
    wasd_direction,
};
use micro3d::input::{
    ElementState, InputState, ModifiersState, MouseButton, ALT_LEFT, ARROW_RIGHT, CONTROL_LEFT,
    ESCAPE, F4, KEY_A, KEY_C, KEY_D, KEY_S, KEY_W, SHIFT_RIGHT, SPACE,
};

#[test]
fn new_input_state_holds_nothing() {
    let input = InputState::new();
    assert!(!input.key_pressed(KEY_W));
    assert!(input.pressed_keys().is_empty());
    assert!(!input.needs_redraw());
    assert_eq!(input.modifiers(), ModifiersState::empty());
    assert!(!InputState::default().key_pressed(KEY_A));
}

#[test]
fn key_press_and_release() {
    let mut input = InputState::new();
    input.key_input(KEY_W, ElementState::Pressed);
    assert!(input.key_pressed(KEY_W));
    assert!(input.key_just_pressed(KEY_W));
    assert!(input.needs_redraw());
    input.key_input(KEY_W, ElementState::Released);
    assert!(!input.key_pressed(KEY_W));
    assert!(input.key_just_released(KEY_W));
    assert!(input.key_just_pressed(KEY_W));
}

#[test]
fn repeated_press_is_not_just_pressed_again() {
    let mut input = InputState::new();
    input.key_input(KEY_W, ElementState::Pressed);
    input.update();
    assert!(!input.key_just_pressed(KEY_W));
    assert!(input.key_pressed(KEY_W));
    assert!(!input.needs_redraw());
    input.key_input(KEY_W, ElementState::Pressed);
    assert!(!input.key_just_pressed(KEY_W));
}

#[test]
fn key_events_leave_other_keys_alone() {
    let mut input = InputState::new();
    input.key_input(KEY_A, ElementState::Pressed);
    input.key_input(KEY_D, ElementState::Pressed);
    input.key_input(KEY_A, ElementState::Released);
    assert!(input.key_pressed(KEY_D));
    assert!(!input.key_just_released(KEY_D));
    assert_eq!(input.pressed_keys().len(), 1);
}

#[test]
fn mouse_buttons_are_tracked_apart() {
    let mut input = InputState::new();
    input.mouse_button(MouseButton::Left, ElementState::Pressed);
    input.mouse_button(MouseButton::Other(3), ElementState::Pressed);
    assert!(input.mouse_button_pressed(MouseButton::Left));
    assert!(input.mouse_button_just_pressed(MouseButton::Left));
    assert!(input.mouse_button_pressed(MouseButton::Other(3)));
    assert!(!input.mouse_button_pressed(MouseButton::Other(4)));
    assert!(!input.mouse_button_pressed(MouseButton::Right));
    input.update();
    input.mouse_button(MouseButton::Left, ElementState::Released);
    assert!(!input.mouse_button_pressed(MouseButton::Left));
    assert!(input.mouse_button_just_released(MouseButton::Left));
    assert!(!input.mouse_button_just_pressed(MouseButton::Left));
    assert!(input.mouse_button_pressed(MouseButton::Other(3)));
}

#[test]
fn modifiers_and_redraw_requests() {
    let mut input = InputState::new();
    let m = ModifiersState { shift: false, control: true, alt: false, logo: false };
    input.set_modifiers(m);
    assert!(input.modifiers().control_key());
    assert!(!input.modifiers().shift_key());
    assert!(!input.modifiers().alt_key());
    assert!(!input.modifiers().super_key());
    input.request_redraw();
    assert!(input.needs_redraw());
}

#[test]
fn any_and_all_keys() {
    let mut input = InputState::new();
    input.key_input(KEY_W, ElementState::Pressed);
    input.key_input(KEY_A, ElementState::Pressed);
    assert!(any_key_pressed(&input, &[KEY_S, KEY_A]));
    assert!(!any_key_pressed(&input, &[KEY_S, KEY_D]));
    assert!(!any_key_pressed(&input, &[]));
    assert!(all_keys_pressed(&input, &[KEY_W, KEY_A]));
    assert!(!all_keys_pressed(&input, &[KEY_W, KEY_S]));
    assert!(all_keys_pressed(&input, &[]));
}

#[test]
fn should_exit_combinations() {
    let mut input = InputState::new();
    assert!(!should_exit(&input));
    input.key_input(ESCAPE, ElementState::Pressed);
    assert!(should_exit(&input));

    let mut input = InputState::new();
    input.key_input(CONTROL_LEFT, ElementState::Pressed);
    input.update();
    assert!(!should_exit(&input));
    input.key_input(KEY_C, ElementState::Pressed);
    assert!(should_exit(&input));

    let mut input = InputState::new();
    input.key_input(ALT_LEFT, ElementState::Pressed);
    input.key_input(F4, ElementState::Pressed);
    assert!(should_exit(&input));

    let mut input = InputState::new();
    input.key_input(KEY_C, ElementState::Pressed);
    assert!(!should_exit(&input));
}

#[test]
fn wasd_direction_signs() {
    let mut input = InputState::new();
    assert_eq!(wasd_direction(&input), (0, 0));
    input.key_input(KEY_W, ElementState::Pressed);
    assert_eq!(wasd_direction(&input), (0, -1));
    input.key_input(ARROW_RIGHT, ElementState::Pressed);
    assert_eq!(wasd_direction(&input), (1, -1));
    input.key_input(KEY_S, ElementState::Pressed);
    assert_eq!(wasd_direction(&input), (1, 0));
    input.key_input(KEY_A, ElementState::Pressed);
    assert_eq!(wasd_direction(&input), (0, 0));
}

#[test]
fn jump_and_crouch() {
    let mut input = InputState::new();
    assert!(!jump_pressed(&input));
    assert!(!crouch_pressed(&input));
    input.key_input(SPACE, ElementState::Pressed);
    input.key_input(SHIFT_RIGHT, ElementState::Pressed);
    assert!(jump_pressed(&input));
    assert!(crouch_pressed(&input));
}

#[test]
fn exit_requested_keys() {
    let none = ModifiersState::empty();
    let ctrl = ModifiersState { shift: false, control: true, alt: false, logo: false };
    assert!(exit_requested(ESCAPE, ElementState::Pressed, none));
    assert!(!exit_requested(ESCAPE, ElementState::Released, none));
    assert!(exit_requested(KEY_C, ElementState::Pressed, ctrl));
    assert!(!exit_requested(KEY_C, ElementState::Pressed, none));
    assert!(!exit_requested(KEY_W, ElementState::Pressed, ctrl));
}

#[test]
fn key_codes_follow_winit_order() {
    let all = [
        (W::KeyA, KEY_A),
        (W::KeyC, KEY_C),
        (W::KeyD, KEY_D),
        (W::KeyS, KEY_S),
        (W::KeyW, KEY_W),
        (W::AltLeft, ALT_LEFT),
        (W::ControlLeft, CONTROL_LEFT),
        (W::ShiftRight, SHIFT_RIGHT),
        (W::Space, SPACE),
        (W::ArrowRight, ARROW_RIGHT),
        (W::Escape, ESCAPE),
        (W::F4, F4),
    ];
    for (key, code) in all {
        assert_eq!(key as u32, code);
    }
}

#[test]
fn update_keeps_held_keys_and_buttons() {
    let mut input = InputState::new();
    input.key_input(KEY_D, ElementState::Pressed);
    input.mouse_button(MouseButton::Right, ElementState::Pressed);
    input.key_input(KEY_A, ElementState::Released);
    input.update();
    assert!(input.key_pressed(KEY_D));
    assert!(input.mouse_button_pressed(MouseButton::Right));
    assert!(!input.key_just_pressed(KEY_D));
    assert!(!input.key_just_released(KEY_A));
    assert!(!input.mouse_button_just_pressed(MouseButton::Right));
}

#[test]
fn redraw_request_is_taken_once() {
    let mut input = InputState::new();
    assert!(!input.take_redraw_request());
    input.request_redraw();
    assert!(input.take_redraw_request());
    assert!(!input.take_redraw_request());
    assert!(!input.needs_redraw());
    input.key_input(KEY_W, ElementState::Pressed);
    assert!(input.take_redraw_request());
    assert!(input.key_pressed(KEY_W));
}
