//! Utility functions for common input patterns.

use crate::input::{
    InputState, ALT_LEFT, ARROW_DOWN, ARROW_LEFT, ARROW_RIGHT, ARROW_UP, CONTROL_LEFT, ESCAPE, F4,
    KEY_A, KEY_C, KEY_D, KEY_S, KEY_W, SHIFT_LEFT, SHIFT_RIGHT, SPACE,
};
use crate::input::{ElementState, KeyCode, ModifiersState};
use vstd::prelude::*;

verus! {

/// Check if any of the given keys are pressed.
pub fn any_key_pressed(input: &InputState, keys: &[KeyCode]) -> (b: bool)
    ensures
        b == exists|i: int| 0 <= i < keys@.len() && input@.pressed_keys.contains(#[trigger] keys@[i]),
{
    let mut i: usize = 0;
    while i < keys.len()
        invariant
            i <= keys@.len(),
            forall|j: int| 0 <= j < i ==> !input@.pressed_keys.contains(#[trigger] keys@[j]),
        decreases keys@.len() - i,
    {
        if input.key_pressed(keys[i]) {
            return true;
        }
        i = i + 1;
    }
    false
}

/// Check if all of the given keys are pressed.
pub fn all_keys_pressed(input: &InputState, keys: &[KeyCode]) -> (b: bool)
    ensures
        b == forall|i: int| 0 <= i < keys@.len() ==> input@.pressed_keys.contains(#[trigger] keys@[i]),
{
    let mut i: usize = 0;
    while i < keys.len()
        invariant
            i <= keys@.len(),
            forall|j: int| 0 <= j < i ==> input@.pressed_keys.contains(#[trigger] keys@[j]),
        decreases keys@.len() - i,
    {
        if !input.key_pressed(keys[i]) {
            return false;
        }
        i = i + 1;
    }
    true
}

/// The common exit combinations: `Escape`, `Ctrl+C` (left `Control`) and
/// `Alt+F4` (left `Alt`), each counted when its last key was just pressed.
pub open spec fn exit_combination(pressed: Set<KeyCode>, just_pressed: Set<KeyCode>) -> bool {
    ||| just_pressed.contains(ESCAPE)
    ||| pressed.contains(CONTROL_LEFT) && just_pressed.contains(KEY_C)
    ||| pressed.contains(ALT_LEFT) && just_pressed.contains(F4)
}

/// The exit combinations: `Escape` just pressed; `C` just pressed while left
/// `Control` is held; `F4` just pressed while left `Alt` is held, however
/// long before the modifier went down. Nothing else asks to exit: where none
/// of `Escape`, `C` and `F4` was just pressed, there is no exit.
pub proof fn law_exit_combinations(pressed: Set<KeyCode>, just_pressed: Set<KeyCode>)
    ensures
        just_pressed.contains(ESCAPE) ==> exit_combination(pressed, just_pressed),
        pressed.contains(CONTROL_LEFT) && just_pressed.contains(KEY_C) ==> exit_combination(
            pressed,
            just_pressed,
        ),
        pressed.contains(ALT_LEFT) && just_pressed.contains(F4) ==> exit_combination(
            pressed,
            just_pressed,
        ),
        !just_pressed.contains(ESCAPE) && !just_pressed.contains(KEY_C) && !just_pressed.contains(
            F4,
        ) ==> !exit_combination(pressed, just_pressed),
        !just_pressed.contains(ESCAPE) && !pressed.contains(CONTROL_LEFT) && !pressed.contains(
            ALT_LEFT,
        ) ==> !exit_combination(pressed, just_pressed),
{
}

/// Check for common exit combinations (Escape, Ctrl+C, Alt+F4).
pub fn should_exit(input: &InputState) -> (b: bool)
    ensures
        b == exit_combination(input@.pressed_keys, input@.just_pressed_keys),
{
    input.key_just_pressed(ESCAPE) || (input.key_pressed(CONTROL_LEFT) && input.key_just_pressed(
        KEY_C,
    )) || (input.key_pressed(ALT_LEFT) && input.key_just_pressed(F4))
}

/// The sign of the movement along one axis: -1 where only a key for the
/// negative direction is held, 1 where only one for the positive direction is.
pub open spec fn axis(negative: bool, positive: bool) -> int {
    (if positive {
        1int
    } else {
        0int
    }) - (if negative {
        1int
    } else {
        0int
    })
}

/// The direction of WASD (or arrow key) movement, one sign per axis: `x`
/// grows with `D`/right and shrinks with `A`/left, `z` grows with `S`/down
/// and shrinks with `W`/up. Opposite keys cancel out.
pub fn wasd_direction(input: &InputState) -> (r: (i8, i8))
    ensures
        r.0 == axis(
            input@.pressed_keys.contains(KEY_A) || input@.pressed_keys.contains(ARROW_LEFT),
            input@.pressed_keys.contains(KEY_D) || input@.pressed_keys.contains(ARROW_RIGHT),
        ),
        r.1 == axis(
            input@.pressed_keys.contains(KEY_W) || input@.pressed_keys.contains(ARROW_UP),
            input@.pressed_keys.contains(KEY_S) || input@.pressed_keys.contains(ARROW_DOWN),
        ),
{
    let mut x: i8 = 0;
    let mut z: i8 = 0;
    if input.key_pressed(KEY_W) || input.key_pressed(ARROW_UP) {
        z = z - 1;
    }
    if input.key_pressed(KEY_S) || input.key_pressed(ARROW_DOWN) {
        z = z + 1;
    }
    if input.key_pressed(KEY_A) || input.key_pressed(ARROW_LEFT) {
        x = x - 1;
    }
    if input.key_pressed(KEY_D) || input.key_pressed(ARROW_RIGHT) {
        x = x + 1;
    }
    (x, z)
}

/// Check if space bar is pressed (common for jump/fly up).
pub fn jump_pressed(input: &InputState) -> (b: bool)
    ensures
        b == input@.pressed_keys.contains(SPACE),
{
    input.key_pressed(SPACE)
}

/// Check if shift is pressed (common for crouch/fly down).
pub fn crouch_pressed(input: &InputState) -> (b: bool)
    ensures
        b == (input@.pressed_keys.contains(SHIFT_LEFT) || input@.pressed_keys.contains(SHIFT_RIGHT)),
{
    input.key_pressed(SHIFT_LEFT) || input.key_pressed(SHIFT_RIGHT)
}

/// Whether a key event ends the application: `Escape` pressed, or `C`
/// pressed while a `Control` key is held.
pub fn exit_requested(key: KeyCode, state: ElementState, modifiers: ModifiersState) -> (b: bool)
    ensures
        b == (state == ElementState::Pressed && (key == ESCAPE || (key == KEY_C
            && modifiers.control))),
{
    let pressed = match state {
        ElementState::Pressed => true,
        ElementState::Released => false,
    };
    (key == ESCAPE && pressed) || (key == KEY_C && pressed && modifiers.control_key())
}

} // verus!
