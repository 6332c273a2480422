//! How the application answers window events and frames.
//!
//! The window system, the renderer and the camera live outside this crate;
//! this module decides, for each event, what becomes of the input state and
//! what the application does next.

use crate::input::utils::exit_requested;
use crate::input::{ElementState, InputState, InputView, KeyCode, ModifiersState, MouseButton};
use crate::time::TimeState;
use std::time::Instant;
use vstd::prelude::*;

verus! {

/// A window event, with what the decisions read of it.
#[derive(Clone, Copy, Debug, PartialEq, Eq, Structural)]
pub enum WindowEvent {
    /// The user asked to close the window.
    CloseRequested,
    /// The window's drawable area changed size.
    Resized { width: u32, height: u32 },
    /// The window asks to be drawn.
    RedrawRequested,
    /// A mouse button went down or up.
    MouseInput { button: MouseButton, state: ElementState },
    /// The cursor moved (its position is handled by the caller).
    CursorMoved,
    /// The mouse wheel turned (its delta is handled by the caller); the
    /// camera zooms, so the window is drawn again.
    MouseWheel,
    /// The held modifier keys changed.
    ModifiersChanged(ModifiersState),
    /// A physical key went down or up.
    KeyboardInput { key: KeyCode, state: ElementState },
    /// Any other event, which the application ignores.
    Other,
}

/// What the application does in answer to an event.
#[derive(Clone, Copy, Debug)]
pub struct EventResponse {
    /// Leave the event loop.
    pub exit: bool,
    /// Reconfigure the surface to this size.
    pub resize_to: Option<(u32, u32)>,
    /// Update the scene and render a frame.
    pub run_frame: bool,
    /// Ask the window for a redraw.
    pub request_redraw: bool,
}

/// Doing nothing.
pub open spec fn no_response() -> EventResponse {
    EventResponse { exit: false, resize_to: None, run_frame: false, request_redraw: false }
}

/// A surface can only be configured to a size with some area.
pub open spec fn surface_size(width: u32, height: u32) -> Option<(u32, u32)> {
    if width > 0 && height > 0 {
        Some((width, height))
    } else {
        None
    }
}

/// The size to configure a surface to for a window of `width` by `height`,
/// or `None` where the window has no area.
pub fn checked_surface_size(width: u32, height: u32) -> (r: Option<(u32, u32)>)
    ensures
        r == surface_size(width, height),
{
    if width > 0 && height > 0 {
        Some((width, height))
    } else {
        None
    }
}

/// The answer to an event, given the input state before it.
pub open spec fn response_to(input: InputView, event: WindowEvent) -> EventResponse {
    match event {
        WindowEvent::CloseRequested => EventResponse { exit: true, ..no_response() },
        WindowEvent::Resized { width, height } => EventResponse {
            resize_to: surface_size(width, height),
            ..no_response()
        },
        WindowEvent::RedrawRequested => EventResponse { run_frame: true, ..no_response() },
        WindowEvent::MouseInput { .. } => EventResponse { request_redraw: true, ..no_response() },
        WindowEvent::MouseWheel => EventResponse { request_redraw: true, ..no_response() },
        WindowEvent::KeyboardInput { key, state } => EventResponse {
            exit: state == ElementState::Pressed && (key == crate::input::ESCAPE || (key
                == crate::input::KEY_C && input.modifiers.control)),
            request_redraw: true,
            ..no_response()
        },
        _ => no_response(),
    }
}

/// The input state after an event.
pub open spec fn input_after(input: InputView, event: WindowEvent) -> InputView {
    match event {
        WindowEvent::MouseInput { button, state } => input.button_event(button, state),
        WindowEvent::ModifiersChanged(modifiers) => InputView { modifiers, ..input },
        WindowEvent::KeyboardInput { key, state } => input.key_event(key, state),
        WindowEvent::MouseWheel => InputView { needs_redraw: true, ..input },
        _ => input,
    }
}

/// Handle a window event: record what it says of keys, buttons and modifiers
/// in the input state, and decide what the application does next. `Escape`,
/// or `C` with `Control` held, ends the application.
pub fn handle_event(input: &mut InputState, event: WindowEvent) -> (r: EventResponse)
    ensures
        final(input)@ == input_after(old(input)@, event),
        r == response_to(old(input)@, event),
{
    let none = EventResponse { exit: false, resize_to: None, run_frame: false, request_redraw: false };
    match event {
        WindowEvent::CloseRequested => EventResponse { exit: true, ..none },
        WindowEvent::Resized { width, height } => EventResponse {
            resize_to: checked_surface_size(width, height),
            ..none
        },
        WindowEvent::RedrawRequested => EventResponse { run_frame: true, ..none },
        WindowEvent::MouseInput { button, state } => {
            input.mouse_button(button, state);
            EventResponse { request_redraw: true, ..none }
        },
        WindowEvent::ModifiersChanged(modifiers) => {
            input.set_modifiers(modifiers);
            none
        },
        WindowEvent::MouseWheel => {
            input.request_redraw();
            EventResponse { request_redraw: true, ..none }
        },
        WindowEvent::KeyboardInput { key, state } => {
            input.key_input(key, state);
            let exit = exit_requested(key, state, input.modifiers());
            EventResponse { exit, request_redraw: true, ..none }
        },
        _ => none,
    }
}

/// `Escape`, or `C` while `Control` is held, ends the application when
/// pressed; releasing a key never does, and neither does any key press while
/// no `Control` key is held, other than `Escape`.
pub proof fn law_exit_keys(input: InputView, key: KeyCode)
    ensures
        response_to(
            input,
            WindowEvent::KeyboardInput { key: crate::input::ESCAPE, state: ElementState::Pressed },
        ).exit,
        input.modifiers.control ==> response_to(
            input,
            WindowEvent::KeyboardInput { key: crate::input::KEY_C, state: ElementState::Pressed },
        ).exit,
        !response_to(input, WindowEvent::KeyboardInput { key, state: ElementState::Released }).exit,
        !input.modifiers.control && key != crate::input::ESCAPE ==> !response_to(
            input,
            WindowEvent::KeyboardInput { key, state: ElementState::Pressed },
        ).exit,
{
}

/// A key press ends the application only where the key is `Escape`, or `C`
/// while `Control` is held: every other key, pressed with any modifiers, and
/// `C` without `Control`, leaves it running; every key event asks for a
/// redraw and nothing else besides.
pub proof fn law_only_exit_keys_exit(
    input: InputView,
    key: KeyCode,
    state: ElementState,
    modifiers: ModifiersState,
)
    ensures
        key != crate::input::ESCAPE && key != crate::input::KEY_C ==> !response_to(
            InputView { modifiers, ..input },
            WindowEvent::KeyboardInput { key, state },
        ).exit,
        !modifiers.control ==> !response_to(
            InputView { modifiers, ..input },
            WindowEvent::KeyboardInput { key: crate::input::KEY_C, state },
        ).exit,
        response_to(input, WindowEvent::KeyboardInput { key, state }).exit == (state
            == ElementState::Pressed && (key == crate::input::ESCAPE || (key == crate::input::KEY_C
            && input.modifiers.control))),
        response_to(input, WindowEvent::KeyboardInput { key, state }).request_redraw,
        !response_to(input, WindowEvent::KeyboardInput { key, state }).run_frame,
        response_to(input, WindowEvent::KeyboardInput { key, state }).resize_to is None,
{
}

/// A resize reconfigures the surface to exactly the window's new size
/// whenever that size has some area, whatever its shape; a window with no
/// width or no height leaves the surface as it is.
pub proof fn law_resize_reconfigures(input: InputView, width: u32, height: u32)
    ensures
        width > 0 && height > 0 ==> surface_size(width, height) == Some((width, height)),
        width == 0 || height == 0 ==> surface_size(width, height) is None,
        width > 0 && height > 0 ==> response_to(
            input,
            WindowEvent::Resized { width, height },
        ).resize_to == Some((width, height)),
        width > 0 && height > 0 ==> response_to(
            input,
            WindowEvent::Resized { width: height, height: width },
        ).resize_to == Some((height, width)),
        !response_to(input, WindowEvent::Resized { width, height }).exit,
{
}

/// What each kind of event asks for: a close request exits and nothing else;
/// a redraw request runs a frame and nothing else; a mouse button or the
/// wheel asks for a redraw and nothing else; a change of modifiers, a cursor
/// move or any other event asks for nothing. Only key and button events,
/// modifier changes and the wheel touch the input state: a modifier change
/// records the new modifiers and nothing else, the wheel only marks a redraw.
pub proof fn law_event_responses(input: InputView, event: WindowEvent)
    ensures
        response_to(input, WindowEvent::CloseRequested) == (EventResponse {
            exit: true,
            resize_to: None,
            run_frame: false,
            request_redraw: false,
        }),
        response_to(input, WindowEvent::RedrawRequested) == (EventResponse {
            exit: false,
            resize_to: None,
            run_frame: true,
            request_redraw: false,
        }),
        event is MouseInput || event is MouseWheel ==> response_to(input, event) == (EventResponse {
            exit: false,
            resize_to: None,
            run_frame: false,
            request_redraw: true,
        }),
        event is ModifiersChanged || event is CursorMoved || event is Other ==> response_to(
            input,
            event,
        ) == (EventResponse { exit: false, resize_to: None, run_frame: false, request_redraw: false }),
        event is CloseRequested || event is Resized || event is RedrawRequested || event is CursorMoved
            || event is Other ==> input_after(input, event) == input,
        event matches WindowEvent::ModifiersChanged(m) ==> input_after(input, event) == (InputView {
            modifiers: m,
            ..input
        }),
        event is MouseWheel ==> input_after(input, event) == (InputView {
            needs_redraw: true,
            ..input
        }),
        event matches WindowEvent::KeyboardInput { key, state } ==> input_after(input, event)
            == input.key_event(key, state),
        event matches WindowEvent::MouseInput { button, state } ==> input_after(input, event)
            == input.button_event(button, state),
{
}

/// Only closing the window or an exit key press ends the application, and
/// only a resize to a size with some area reconfigures the surface.
pub proof fn law_only_close_or_keys_exit(input: InputView, event: WindowEvent)
    ensures
        response_to(input, event).exit ==> (event == WindowEvent::CloseRequested
            || event is KeyboardInput),
        response_to(input, event).resize_to matches Some((w, h)) ==> w > 0 && h > 0,
{
}

/// Why the surface could not hand out a frame to draw on.
#[derive(Clone, Copy, Debug, PartialEq, Eq, Structural)]
pub enum SurfaceError {
    /// No frame came in time.
    Timeout,
    /// The surface no longer matches the window.
    Outdated,
    /// The surface was lost.
    Lost,
    /// The GPU ran out of memory.
    OutOfMemory,
    /// Any other failure.
    Other,
}

/// What the application does after a frame could not be rendered.
#[derive(Clone, Copy, Debug, PartialEq, Eq, Structural)]
pub enum Recovery {
    /// Reconfigure the surface to the window's current size.
    Reconfigure,
    /// Leave the event loop.
    Exit,
    /// Report the error and go on.
    Report,
}

/// The recovery from a render error: a lost or outdated surface is
/// reconfigured, running out of memory ends the application, anything else is
/// reported.
pub fn recovery_for(error: SurfaceError) -> (r: Recovery)
    ensures
        r == (match error {
            SurfaceError::Lost | SurfaceError::Outdated => Recovery::Reconfigure,
            SurfaceError::OutOfMemory => Recovery::Exit,
            _ => Recovery::Report,
        }),
{
    match error {
        SurfaceError::Lost | SurfaceError::Outdated => Recovery::Reconfigure,
        SurfaceError::OutOfMemory => Recovery::Exit,
        _ => Recovery::Report,
    }
}

/// Start a frame: the clock records the frame and the input state forgets
/// what was just pressed or released in the previous one.
pub fn begin_frame(time: &mut TimeState, input: &mut InputState)
    requires
        old(time).wf(),
        old(time)@.frame_count < u64::MAX,
    ensures
        final(time).wf(),
        final(time)@ == old(time)@.advanced(
            crate::time::span_between(final(time)@.elapsed, old(time)@.elapsed),
            final(time)@.elapsed,
        ),
        final(time).start_instant() == old(time).start_instant(),
        exists|now: Instant|
            final(time)@.elapsed == crate::time::instant_span(now, old(time).start_instant()),
        final(input)@ == old(input)@.next_frame(),
{
    time.update();
    input.update();
}

} // verus!
