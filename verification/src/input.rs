//! Input handling for keyboard and mouse buttons.
//!
//! Keys are numbered by [`KeyCode`]: the position of the physical key in the
//! table of key codes of the W3C UI Events specification, in the order in
//! which winit's `KeyCode` lists them (`Backquote` is 0, `F35` is 193).

use std::collections::HashSet;
use vstd::prelude::*;

pub mod utils;

verus! {

broadcast use vstd::std_specs::hash::group_hash_axioms;

/// A physical key, by its position in the key code table.
pub type KeyCode = u32;

/// The `A` key.
pub const KEY_A: KeyCode = 19;

/// The `C` key.
pub const KEY_C: KeyCode = 21;

/// The `D` key.
pub const KEY_D: KeyCode = 22;

/// The `S` key.
pub const KEY_S: KeyCode = 37;

/// The `W` key.
pub const KEY_W: KeyCode = 41;

/// The left `Alt` key.
pub const ALT_LEFT: KeyCode = 50;

/// The left `Control` key.
pub const CONTROL_LEFT: KeyCode = 55;

/// The left `Shift` key.
pub const SHIFT_LEFT: KeyCode = 60;

/// The right `Shift` key.
pub const SHIFT_RIGHT: KeyCode = 61;

/// The space bar.
pub const SPACE: KeyCode = 62;

/// The down arrow key.
pub const ARROW_DOWN: KeyCode = 79;

/// The left arrow key.
pub const ARROW_LEFT: KeyCode = 80;

/// The right arrow key.
pub const ARROW_RIGHT: KeyCode = 81;

/// The up arrow key.
pub const ARROW_UP: KeyCode = 82;

/// The `Escape` key.
pub const ESCAPE: KeyCode = 114;

/// The `F4` key.
pub const F4: KeyCode = 162;

/// Whether a key or button went down or up.
#[derive(Clone, Copy, Debug, PartialEq, Eq, Structural)]
pub enum ElementState {
    Pressed,
    Released,
}

/// A mouse button.
#[derive(Clone, Copy, Debug, PartialEq, Eq, Structural)]
pub enum MouseButton {
    Left,
    Right,
    Middle,
    Back,
    Forward,
    Other(u16),
}

/// The number under which a mouse button is tracked: distinct buttons have
/// distinct numbers.
pub open spec fn button_code(b: MouseButton) -> u32 {
    match b {
        MouseButton::Left => 0,
        MouseButton::Right => 1,
        MouseButton::Middle => 2,
        MouseButton::Back => 3,
        MouseButton::Forward => 4,
        MouseButton::Other(n) => (5 + n) as u32,
    }
}

/// The number under which a mouse button is tracked.
fn code_of(b: MouseButton) -> (c: u32)
    ensures
        c == button_code(b),
{
    match b {
        MouseButton::Left => 0,
        MouseButton::Right => 1,
        MouseButton::Middle => 2,
        MouseButton::Back => 3,
        MouseButton::Forward => 4,
        MouseButton::Other(n) => 5 + n as u32,
    }
}

/// The buttons whose numbers a set holds.
pub open spec fn buttons_of(codes: Set<u32>) -> Set<MouseButton> {
    Set::new(|b: MouseButton| codes.contains(button_code(b)))
}

/// Distinct buttons have distinct numbers.
proof fn lemma_button_code_injective(a: MouseButton, b: MouseButton)
    ensures
        button_code(a) == button_code(b) ==> a == b,
{
}

/// Adding a button's number adds the button.
proof fn lemma_buttons_of_insert(codes: Set<u32>, b: MouseButton)
    ensures
        buttons_of(codes.insert(button_code(b))) == buttons_of(codes).insert(b),
{
    assert forall|x: MouseButton|
        buttons_of(codes.insert(button_code(b))).contains(x) == buttons_of(codes).insert(b).contains(
            x,
        ) by {
        lemma_button_code_injective(x, b);
    }
    assert(buttons_of(codes.insert(button_code(b))) =~= buttons_of(codes).insert(b));
}

/// Removing a button's number removes the button.
proof fn lemma_buttons_of_remove(codes: Set<u32>, b: MouseButton)
    ensures
        buttons_of(codes.remove(button_code(b))) == buttons_of(codes).remove(b),
{
    assert forall|x: MouseButton|
        buttons_of(codes.remove(button_code(b))).contains(x) == buttons_of(codes).remove(b).contains(
            x,
        ) by {
        lemma_button_code_injective(x, b);
    }
    assert(buttons_of(codes.remove(button_code(b))) =~= buttons_of(codes).remove(b));
}

/// The empty set of numbers holds no buttons.
proof fn lemma_buttons_of_empty()
    ensures
        buttons_of(Set::<u32>::empty()) == Set::<MouseButton>::empty(),
{
    assert(buttons_of(Set::<u32>::empty()) =~= Set::<MouseButton>::empty());
}

/// Which modifier keys are held.
#[derive(Clone, Copy, Debug, PartialEq, Eq, Structural)]
pub struct ModifiersState {
    /// A `Shift` key is held.
    pub shift: bool,
    /// A `Control` key is held.
    pub control: bool,
    /// An `Alt` key is held.
    pub alt: bool,
    /// A logo (`Super`) key is held.
    pub logo: bool,
}

impl ModifiersState {
    /// No modifier held.
    pub fn empty() -> (m: ModifiersState)
        ensures
            !m.shift && !m.control && !m.alt && !m.logo,
    {
        ModifiersState { shift: false, control: false, alt: false, logo: false }
    }

    /// Whether a `Shift` key is held.
    pub fn shift_key(&self) -> (b: bool)
        ensures
            b == self.shift,
    {
        self.shift
    }

    /// Whether a `Control` key is held.
    pub fn control_key(&self) -> (b: bool)
        ensures
            b == self.control,
    {
        self.control
    }

    /// Whether an `Alt` key is held.
    pub fn alt_key(&self) -> (b: bool)
        ensures
            b == self.alt,
    {
        self.alt
    }

    /// Whether a logo key is held.
    pub fn super_key(&self) -> (b: bool)
        ensures
            b == self.logo,
    {
        self.logo
    }
}

/// The abstract state of an [`InputState`].
#[verifier::ext_equal]
pub struct InputView {
    pub pressed_keys: Set<KeyCode>,
    pub just_pressed_keys: Set<KeyCode>,
    pub just_released_keys: Set<KeyCode>,
    pub modifiers: ModifiersState,
    pub pressed_buttons: Set<MouseButton>,
    pub just_pressed_buttons: Set<MouseButton>,
    pub just_released_buttons: Set<MouseButton>,
    pub needs_redraw: bool,
}

impl InputView {
    /// The state of a fresh input state: nothing held, nothing to redraw.
    pub open spec fn initial() -> InputView {
        InputView {
            pressed_keys: Set::empty(),
            just_pressed_keys: Set::empty(),
            just_released_keys: Set::empty(),
            modifiers: ModifiersState { shift: false, control: false, alt: false, logo: false },
            pressed_buttons: Set::empty(),
            just_pressed_buttons: Set::empty(),
            just_released_buttons: Set::empty(),
            needs_redraw: false,
        }
    }

    /// The state at the start of a new frame: what was just pressed or just
    /// released is forgotten, what is held stays held.
    pub open spec fn next_frame(self) -> InputView {
        InputView {
            just_pressed_keys: Set::empty(),
            just_released_keys: Set::empty(),
            just_pressed_buttons: Set::empty(),
            just_released_buttons: Set::empty(),
            needs_redraw: false,
            ..self
        }
    }

    /// The state after a key event. A press counts as "just pressed" only
    /// where the key was not held already.
    pub open spec fn key_event(self, key: KeyCode, state: ElementState) -> InputView {
        match state {
            ElementState::Pressed => InputView {
                just_pressed_keys: if self.pressed_keys.contains(key) {
                    self.just_pressed_keys
                } else {
                    self.just_pressed_keys.insert(key)
                },
                pressed_keys: self.pressed_keys.insert(key),
                needs_redraw: true,
                ..self
            },
            ElementState::Released => InputView {
                pressed_keys: self.pressed_keys.remove(key),
                just_released_keys: self.just_released_keys.insert(key),
                needs_redraw: true,
                ..self
            },
        }
    }

    /// The state after a mouse button event. A press counts as "just pressed"
    /// only where the button was not held already.
    pub open spec fn button_event(self, button: MouseButton, state: ElementState) -> InputView {
        match state {
            ElementState::Pressed => InputView {
                just_pressed_buttons: if self.pressed_buttons.contains(button) {
                    self.just_pressed_buttons
                } else {
                    self.just_pressed_buttons.insert(button)
                },
                pressed_buttons: self.pressed_buttons.insert(button),
                needs_redraw: true,
                ..self
            },
            ElementState::Released => InputView {
                pressed_buttons: self.pressed_buttons.remove(button),
                just_released_buttons: self.just_released_buttons.insert(button),
                needs_redraw: true,
                ..self
            },
        }
    }
}

/// A press of a key that is already held (a repeat) does not count as "just
/// pressed" again; a press of a key that is not held does.
pub proof fn law_press_counts_once(v: InputView, key: KeyCode)
    ensures
        v.pressed_keys.contains(key) ==> v.key_event(key, ElementState::Pressed).just_pressed_keys
            == v.just_pressed_keys,
        !v.pressed_keys.contains(key) ==> v.key_event(
            key,
            ElementState::Pressed,
        ).just_pressed_keys.contains(key),
        v.key_event(key, ElementState::Pressed).pressed_keys.contains(key),
{
}

/// Releasing a key lets go of it and counts it as "just released", whatever
/// came before; what was just pressed this frame stays just pressed.
pub proof fn law_release_lets_go(v: InputView, key: KeyCode)
    ensures
        !v.key_event(key, ElementState::Released).pressed_keys.contains(key),
        v.key_event(key, ElementState::Released).just_released_keys.contains(key),
        v.key_event(key, ElementState::Released).just_pressed_keys == v.just_pressed_keys,
{
}

/// A press of a mouse button that is already held does not count as "just
/// pressed" again; a press of a button that is not held does, and the button
/// is then held.
pub proof fn law_button_press_counts_once(v: InputView, button: MouseButton)
    ensures
        v.pressed_buttons.contains(button) ==> v.button_event(
            button,
            ElementState::Pressed,
        ).just_pressed_buttons == v.just_pressed_buttons,
        !v.pressed_buttons.contains(button) ==> v.button_event(
            button,
            ElementState::Pressed,
        ).just_pressed_buttons == v.just_pressed_buttons.insert(button),
        v.button_event(button, ElementState::Pressed).pressed_buttons == v.pressed_buttons.insert(
            button,
        ),
        v.button_event(button, ElementState::Pressed).just_released_buttons
            == v.just_released_buttons,
{
}

/// Releasing a mouse button lets go of it and counts it as "just released";
/// the buttons just pressed this frame stay just pressed, so a click within
/// one frame is seen both as a press and as a release.
pub proof fn law_button_release_lets_go(v: InputView, button: MouseButton)
    ensures
        v.button_event(button, ElementState::Released).pressed_buttons == v.pressed_buttons.remove(
            button,
        ),
        v.button_event(button, ElementState::Released).just_released_buttons
            == v.just_released_buttons.insert(button),
        v.button_event(button, ElementState::Released).just_pressed_buttons
            == v.just_pressed_buttons,
        (!v.pressed_buttons.contains(button) ==> ({
            let clicked = v.button_event(button, ElementState::Pressed).button_event(
                button,
                ElementState::Released,
            );
            &&& clicked.just_pressed_buttons.contains(button)
            &&& clicked.just_released_buttons.contains(button)
            &&& !clicked.pressed_buttons.contains(button)
        })),
{
}

/// A mouse button event changes nothing of the keys or the modifiers, and
/// asks for a redraw.
pub proof fn law_button_event_leaves_keys(v: InputView, button: MouseButton, state: ElementState)
    ensures
        v.button_event(button, state).pressed_keys == v.pressed_keys,
        v.button_event(button, state).just_pressed_keys == v.just_pressed_keys,
        v.button_event(button, state).just_released_keys == v.just_released_keys,
        v.button_event(button, state).modifiers == v.modifiers,
        v.button_event(button, state).needs_redraw,
{
}

/// A key event changes nothing of the other keys, nor of the mouse buttons or
/// the modifiers.
pub proof fn law_key_event_leaves_others(
    v: InputView,
    key: KeyCode,
    state: ElementState,
    other: KeyCode,
)
    requires
        other != key,
    ensures
        v.key_event(key, state).pressed_keys.contains(other) == v.pressed_keys.contains(other),
        v.key_event(key, state).just_pressed_keys.contains(other) == v.just_pressed_keys.contains(
            other,
        ),
        v.key_event(key, state).just_released_keys.contains(other)
            == v.just_released_keys.contains(other),
        v.key_event(key, state).pressed_buttons == v.pressed_buttons,
        v.key_event(key, state).modifiers == v.modifiers,
{
}

/// A new frame keeps what is held and forgets what was just pressed or
/// released, for keys and mouse buttons alike.
pub proof fn law_next_frame_keeps_held(v: InputView)
    ensures
        v.next_frame().pressed_keys == v.pressed_keys,
        v.next_frame().pressed_buttons == v.pressed_buttons,
        v.next_frame().modifiers == v.modifiers,
        v.next_frame().just_pressed_keys.is_empty(),
        v.next_frame().just_released_keys.is_empty(),
        v.next_frame().just_pressed_buttons.is_empty(),
        v.next_frame().just_released_buttons.is_empty(),
        !v.next_frame().needs_redraw,
{
}

/// Input state that tracks keyboard and mouse button state.
pub struct InputState {
    // Keyboard state
    pressed_keys: HashSet<KeyCode>,
    just_pressed_keys: HashSet<KeyCode>,
    just_released_keys: HashSet<KeyCode>,
    modifiers: ModifiersState,
    // Mouse state, by button number
    pressed_buttons: HashSet<u32>,
    just_pressed_buttons: HashSet<u32>,
    just_released_buttons: HashSet<u32>,
    // Internal state
    needs_redraw: bool,
}

impl View for InputState {
    type V = InputView;

    closed spec fn view(&self) -> InputView {
        InputView {
            pressed_keys: self.pressed_keys@,
            just_pressed_keys: self.just_pressed_keys@,
            just_released_keys: self.just_released_keys@,
            modifiers: self.modifiers,
            pressed_buttons: buttons_of(self.pressed_buttons@),
            just_pressed_buttons: buttons_of(self.just_pressed_buttons@),
            just_released_buttons: buttons_of(self.just_released_buttons@),
            needs_redraw: self.needs_redraw,
        }
    }
}

impl InputState {
    /// Create a new input state.
    pub fn new() -> (s: InputState)
        ensures
            s@ == InputView::initial(),
    {
        proof {
            lemma_buttons_of_empty();
        }
        InputState {
            pressed_keys: HashSet::new(),
            just_pressed_keys: HashSet::new(),
            just_released_keys: HashSet::new(),
            modifiers: ModifiersState::empty(),
            pressed_buttons: HashSet::new(),
            just_pressed_buttons: HashSet::new(),
            just_released_buttons: HashSet::new(),
            needs_redraw: false,
        }
    }

    /// Update input state - call this at the start of each frame.
    pub fn update(&mut self)
        ensures
            final(self)@ == old(self)@.next_frame(),
    {
        self.just_pressed_keys.clear();
        self.just_released_keys.clear();
        self.just_pressed_buttons.clear();
        self.just_released_buttons.clear();
        self.needs_redraw = false;
        proof {
            lemma_buttons_of_empty();
        }
    }

    /// Handle a key input event.
    pub fn key_input(&mut self, key_code: KeyCode, state: ElementState)
        ensures
            final(self)@ == old(self)@.key_event(key_code, state),
    {
        match state {
            ElementState::Pressed => {
                if !self.pressed_keys.contains(&key_code) {
                    self.just_pressed_keys.insert(key_code);
                }
                self.pressed_keys.insert(key_code);
            },
            ElementState::Released => {
                self.pressed_keys.remove(&key_code);
                self.just_released_keys.insert(key_code);
            },
        }
        self.needs_redraw = true;
    }

    /// Check if a key is currently pressed.
    pub fn key_pressed(&self, key_code: KeyCode) -> (b: bool)
        ensures
            b == self@.pressed_keys.contains(key_code),
    {
        self.pressed_keys.contains(&key_code)
    }

    /// Check if a key was just pressed this frame.
    pub fn key_just_pressed(&self, key_code: KeyCode) -> (b: bool)
        ensures
            b == self@.just_pressed_keys.contains(key_code),
    {
        self.just_pressed_keys.contains(&key_code)
    }

    /// Check if a key was just released this frame.
    pub fn key_just_released(&self, key_code: KeyCode) -> (b: bool)
        ensures
            b == self@.just_released_keys.contains(key_code),
    {
        self.just_released_keys.contains(&key_code)
    }

    /// Get all currently pressed keys.
    pub fn pressed_keys(&self) -> (r: &HashSet<KeyCode>)
        ensures
            r@ == self@.pressed_keys,
    {
        &self.pressed_keys
    }

    /// Set modifier state.
    pub fn set_modifiers(&mut self, modifiers: ModifiersState)
        ensures
            final(self)@ == (InputView { modifiers, ..old(self)@ }),
    {
        self.modifiers = modifiers;
    }

    /// Get current modifier state.
    pub fn modifiers(&self) -> (m: ModifiersState)
        ensures
            m == self@.modifiers,
    {
        self.modifiers
    }

    /// Handle a mouse button event.
    pub fn mouse_button(&mut self, button: MouseButton, state: ElementState)
        ensures
            final(self)@ == old(self)@.button_event(button, state),
    {
        let code = code_of(button);
        proof {
            lemma_buttons_of_insert(self.pressed_buttons@, button);
            lemma_buttons_of_remove(self.pressed_buttons@, button);
            lemma_buttons_of_insert(self.just_pressed_buttons@, button);
            lemma_buttons_of_insert(self.just_released_buttons@, button);
        }
        match state {
            ElementState::Pressed => {
                if !self.pressed_buttons.contains(&code) {
                    self.just_pressed_buttons.insert(code);
                }
                self.pressed_buttons.insert(code);
            },
            ElementState::Released => {
                self.pressed_buttons.remove(&code);
                self.just_released_buttons.insert(code);
            },
        }
        self.needs_redraw = true;
    }

    /// Check if a mouse button is currently pressed.
    pub fn mouse_button_pressed(&self, button: MouseButton) -> (b: bool)
        ensures
            b == self@.pressed_buttons.contains(button),
    {
        self.pressed_buttons.contains(&code_of(button))
    }

    /// Check if a mouse button was just pressed this frame.
    pub fn mouse_button_just_pressed(&self, button: MouseButton) -> (b: bool)
        ensures
            b == self@.just_pressed_buttons.contains(button),
    {
        self.just_pressed_buttons.contains(&code_of(button))
    }

    /// Check if a mouse button was just released this frame.
    pub fn mouse_button_just_released(&self, button: MouseButton) -> (b: bool)
        ensures
            b == self@.just_released_buttons.contains(button),
    {
        self.just_released_buttons.contains(&code_of(button))
    }

    /// Check if redraw is needed.
    pub fn needs_redraw(&self) -> (b: bool)
        ensures
            b == self@.needs_redraw,
    {
        self.needs_redraw
    }

    /// Whether a redraw was requested since the last call; the request is
    /// consumed, so the frame's work is done once per request.
    pub fn take_redraw_request(&mut self) -> (due: bool)
        ensures
            due == old(self)@.needs_redraw,
            final(self)@ == (InputView { needs_redraw: false, ..old(self)@ }),
    {
        let due = self.needs_redraw;
        self.needs_redraw = false;
        due
    }

    /// Request a redraw.
    pub fn request_redraw(&mut self)
        ensures
            final(self)@ == (InputView { needs_redraw: true, ..old(self)@ }),
    {
        self.needs_redraw = true;
    }
}

impl Default for InputState {
    /// A new input state.
    fn default() -> (s: InputState)
        ensures
            s@ == InputView::initial(),
    {
        InputState::new()
    }
}

} // verus!
