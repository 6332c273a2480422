use micro3d::events::{
    begin_frame, handle_event, recovery_for, Recovery, SurfaceError, WindowEvent,
};
use micro3d::input::{
    ElementState, InputState, ModifiersState, MouseButton, ESCAPE, KEY_C, KEY_W,
};
use micro3d::time::TimeState;

#[test]
fn close_requested_exits() {
    let mut input = InputState::new();
    let r = handle_event(&mut input, WindowEvent::CloseRequested);
    assert!(r.exit);
    assert!(!r.run_frame);
}

#[test]
fn resize_needs_some_area() {
    let mut input = InputState::new();
    let r = handle_event(&mut input, WindowEvent::Resized { width: 800, height: 600 });
    assert_eq!(r.resize_to, Some((800, 600)));
    assert!(!r.exit);
    let r = handle_event(&mut input, WindowEvent::Resized { width: 0, height: 600 });
    assert_eq!(r.resize_to, None);
    let r = handle_event(&mut input, WindowEvent::Resized { width: 800, height: 0 });
    assert_eq!(r.resize_to, None);
}

#[test]
fn redraw_runs_a_frame() {
    let mut input = InputState::new();
    let r = handle_event(&mut input, WindowEvent::RedrawRequested);
    assert!(r.run_frame);
    assert!(!r.request_redraw);
}

#[test]
fn mouse_input_records_button_and_redraws() {
    let mut input = InputState::new();
    let r = handle_event(
        &mut input,
        WindowEvent::MouseInput { button: MouseButton::Left, state: ElementState::Pressed },
    );
    assert!(r.request_redraw);
    assert!(input.mouse_button_pressed(MouseButton::Left));
}

#[test]
fn keys_exit_on_escape_or_ctrl_c() {
    let mut input = InputState::new();
    let r = handle_event(&mut input, WindowEvent::KeyboardInput { key: KEY_W, state: ElementState::Pressed });
    assert!(!r.exit);
    assert!(r.request_redraw);
    assert!(input.key_pressed(KEY_W));
    let r = handle_event(&mut input, WindowEvent::KeyboardInput { key: KEY_C, state: ElementState::Pressed });
    assert!(!r.exit);
    let ctrl = ModifiersState { shift: false, control: true, alt: false, logo: false };
    let r = handle_event(&mut input, WindowEvent::ModifiersChanged(ctrl));
    assert!(!r.exit);
    assert!(input.modifiers().control_key());
    let r = handle_event(&mut input, WindowEvent::KeyboardInput { key: KEY_C, state: ElementState::Pressed });
    assert!(r.exit);
    let mut input = InputState::new();
    let r = handle_event(&mut input, WindowEvent::KeyboardInput { key: ESCAPE, state: ElementState::Released });
    assert!(!r.exit);
    let r = handle_event(&mut input, WindowEvent::KeyboardInput { key: ESCAPE, state: ElementState::Pressed });
    assert!(r.exit);
}

#[test]
fn other_events_do_nothing() {
    let mut input = InputState::new();
    for event in [WindowEvent::CursorMoved, WindowEvent::Other] {
        let r = handle_event(&mut input, event);
        assert!(!r.exit && !r.run_frame && !r.request_redraw && r.resize_to.is_none());
    }
    assert!(!input.needs_redraw());
}

#[test]
fn mouse_wheel_asks_for_a_redraw() {
    let mut input = InputState::new();
    let r = handle_event(&mut input, WindowEvent::MouseWheel);
    assert!(r.request_redraw);
    assert!(!r.exit && !r.run_frame && r.resize_to.is_none());
    assert!(input.needs_redraw());
}

#[test]
fn render_error_recovery() {
    assert_eq!(recovery_for(SurfaceError::Lost), Recovery::Reconfigure);
    assert_eq!(recovery_for(SurfaceError::Outdated), Recovery::Reconfigure);
    assert_eq!(recovery_for(SurfaceError::OutOfMemory), Recovery::Exit);
    assert_eq!(recovery_for(SurfaceError::Timeout), Recovery::Report);
    assert_eq!(recovery_for(SurfaceError::Other), Recovery::Report);
}

#[test]
fn begin_frame_advances_time_and_clears_input() {
    let mut time = TimeState::new();
    let mut input = InputState::new();
    input.key_input(KEY_W, ElementState::Pressed);
    begin_frame(&mut time, &mut input);
    assert_eq!(time.frame_count(), 1);
    assert!(input.key_pressed(KEY_W));
    assert!(!input.key_just_pressed(KEY_W));
    assert!(!input.needs_redraw());
}
