//! How window events update the input state: the per-button mouse state,
//! and whether the window asked to close.
use vstd::prelude::*;

verus! {

/// A mouse button as the windowing layer reports it.
#[derive(Debug, Clone, Copy, PartialEq, Eq, Structural, Hash)]
pub enum MouseButton {
    Left,
    Right,
    Middle,
    Other(u16),
}

/// Per-button state, indexed by `mouse_button_index`: pressed this frame,
/// held down, released this frame.
pub struct MouseInput {
    pub mouse_pressed: Vec<bool>,
    pub mouse_held: Vec<bool>,
    pub mouse_released: Vec<bool>,
}

pub open spec fn spec_mouse_button_index(button: MouseButton) -> nat {
    match button {
        MouseButton::Left => 0,
        MouseButton::Right => 1,
        MouseButton::Middle => 2,
        MouseButton::Other(num) => num as nat,
    }
}

/// The slot of `button` in the per-button state.
pub fn mouse_button_index(button: MouseButton) -> (i: usize)
    ensures
        i == spec_mouse_button_index(button),
{
    match button {
        MouseButton::Left => 0,
        MouseButton::Right => 1,
        MouseButton::Middle => 2,
        MouseButton::Other(num) => num as usize,
    }
}

/// A press of `button`: unless it was already pressed last frame, it
/// becomes pressed and held.
pub fn record_mouse_press(
    mouse_input: &mut MouseInput,
    mouse_button_clicked_last_frame: &Vec<bool>,
    button: MouseButton,
)
    requires
        spec_mouse_button_index(button) < mouse_button_clicked_last_frame@.len(),
        !mouse_button_clicked_last_frame@[spec_mouse_button_index(button) as int] ==> (
        spec_mouse_button_index(button) < old(mouse_input).mouse_pressed@.len()
            && spec_mouse_button_index(button) < old(mouse_input).mouse_held@.len()),
    ensures
        ({
            let i = spec_mouse_button_index(button) as int;
            if mouse_button_clicked_last_frame@[i] {
                final(mouse_input).mouse_pressed@ == old(mouse_input).mouse_pressed@
                    && final(mouse_input).mouse_held@ == old(mouse_input).mouse_held@
            } else {
                final(mouse_input).mouse_pressed@ == old(mouse_input).mouse_pressed@.update(i, true)
                    && final(mouse_input).mouse_held@ == old(mouse_input).mouse_held@.update(i, true)
            }
        }),
        final(mouse_input).mouse_released@ == old(mouse_input).mouse_released@,
{
    let this_button = mouse_button_index(button);
    if mouse_button_clicked_last_frame[this_button] == false {
        mouse_input.mouse_pressed.set(this_button, true);
        mouse_input.mouse_held.set(this_button, true);
    }
}

/// A release of `button`: if it was pressed or held, it stops being so and
/// counts as released this frame.
pub fn record_mouse_release(mouse_input: &mut MouseInput, button: MouseButton)
    requires
        spec_mouse_button_index(button) < old(mouse_input).mouse_pressed@.len(),
        spec_mouse_button_index(button) < old(mouse_input).mouse_held@.len(),
        old(mouse_input).mouse_pressed@[spec_mouse_button_index(button) as int]
            || old(mouse_input).mouse_held@[spec_mouse_button_index(button) as int]
            ==> spec_mouse_button_index(button) < old(mouse_input).mouse_released@.len(),
    ensures
        ({
            let i = spec_mouse_button_index(button) as int;
            if old(mouse_input).mouse_pressed@[i] || old(mouse_input).mouse_held@[i] {
                final(mouse_input).mouse_pressed@ == old(mouse_input).mouse_pressed@.update(i, false)
                    && final(mouse_input).mouse_held@ == old(mouse_input).mouse_held@.update(i, false)
                    && final(mouse_input).mouse_released@ == old(mouse_input).mouse_released@.update(i, true)
            } else {
                final(mouse_input).mouse_pressed@ == old(mouse_input).mouse_pressed@
                    && final(mouse_input).mouse_held@ == old(mouse_input).mouse_held@
                    && final(mouse_input).mouse_released@ == old(mouse_input).mouse_released@
            }
        }),
{
    let this_button = mouse_button_index(button);
    if mouse_input.mouse_pressed[this_button] || mouse_input.mouse_held[this_button] {
        mouse_input.mouse_pressed.set(this_button, false);
        mouse_input.mouse_held.set(this_button, false);
        mouse_input.mouse_released.set(this_button, true);
    }
}

/// A window event, as the engine's own input handling tells them apart.
/// The events that carry a size, a position, a scroll distance or a key
/// carry them to the caller, which records them.
#[derive(Debug, Clone, Copy, PartialEq, Eq, Structural)]
pub enum InputEvent {
    CloseRequested,
    MainEventsCleared,
    Resized,
    Key,
    CursorMoved,
    MousePressed(MouseButton),
    MouseReleased(MouseButton),
    MouseWheel,
    Other,
}

/// The input state that window events update.
pub struct InputState {
    pub end_requested: bool,
    pub mouse_input: MouseInput,
}

/// Whether the mouse state has a slot for `button` wherever `event` reads
/// or writes one.
pub open spec fn event_fits(input: InputState, clicked_last_frame: Seq<bool>, event: InputEvent) -> bool {
    match event {
        InputEvent::MousePressed(b) => {
            let i = spec_mouse_button_index(b);
            &&& i < clicked_last_frame.len()
            &&& !clicked_last_frame[i as int] ==> (i < input.mouse_input.mouse_pressed@.len()
                && i < input.mouse_input.mouse_held@.len())
        },
        InputEvent::MouseReleased(b) => {
            let i = spec_mouse_button_index(b);
            &&& i < input.mouse_input.mouse_pressed@.len()
            &&& i < input.mouse_input.mouse_held@.len()
            &&& input.mouse_input.mouse_pressed@[i as int] || input.mouse_input.mouse_held@[i as int]
                ==> i < input.mouse_input.mouse_released@.len()
        },
        _ => true,
    }
}

/// Handles one window event. A close request marks the end of the game; a
/// mouse press or release updates the mouse state as `record_mouse_press`
/// and `record_mouse_release` do; other events leave the state to the
/// caller. Returns whether polling stops for this frame: on a close request
/// and once the queued events are done.
pub fn apply_input_event(input: &mut InputState, clicked_last_frame: &Vec<bool>, event: InputEvent) -> (stop:
    bool)
    requires
        event_fits(*old(input), clicked_last_frame@, event),
    ensures
        stop == (event == InputEvent::CloseRequested || event == InputEvent::MainEventsCleared),
        final(input).end_requested == (old(input).end_requested || event == InputEvent::CloseRequested),
        match event {
            InputEvent::MousePressed(b) => {
                let i = spec_mouse_button_index(b) as int;
                &&& if clicked_last_frame@[i] {
                    final(input).mouse_input.mouse_pressed@ == old(input).mouse_input.mouse_pressed@
                        && final(input).mouse_input.mouse_held@ == old(input).mouse_input.mouse_held@
                } else {
                    final(input).mouse_input.mouse_pressed@ == old(input).mouse_input.mouse_pressed@.update(i, true)
                        && final(input).mouse_input.mouse_held@ == old(input).mouse_input.mouse_held@.update(i, true)
                }
                &&& final(input).mouse_input.mouse_released@ == old(input).mouse_input.mouse_released@
            },
            InputEvent::MouseReleased(b) => {
                let i = spec_mouse_button_index(b) as int;
                if old(input).mouse_input.mouse_pressed@[i] || old(input).mouse_input.mouse_held@[i] {
                    &&& final(input).mouse_input.mouse_pressed@ == old(input).mouse_input.mouse_pressed@.update(i, false)
                    &&& final(input).mouse_input.mouse_held@ == old(input).mouse_input.mouse_held@.update(i, false)
                    &&& final(input).mouse_input.mouse_released@ == old(input).mouse_input.mouse_released@.update(i, true)
                } else {
                    &&& final(input).mouse_input.mouse_pressed@ == old(input).mouse_input.mouse_pressed@
                    &&& final(input).mouse_input.mouse_held@ == old(input).mouse_input.mouse_held@
                    &&& final(input).mouse_input.mouse_released@ == old(input).mouse_input.mouse_released@
                }
            },
            _ => {
                &&& final(input).mouse_input.mouse_pressed@ == old(input).mouse_input.mouse_pressed@
                &&& final(input).mouse_input.mouse_held@ == old(input).mouse_input.mouse_held@
                &&& final(input).mouse_input.mouse_released@ == old(input).mouse_input.mouse_released@
            },
        },
{
    match event {
        InputEvent::CloseRequested => {
            input.end_requested = true;
            true
        },
        InputEvent::MainEventsCleared => true,
        InputEvent::MousePressed(b) => {
            record_mouse_press(&mut input.mouse_input, clicked_last_frame, b);
            false
        },
        InputEvent::MouseReleased(b) => {
            record_mouse_release(&mut input.mouse_input, b);
            false
        },
        _ => false,
    }
}

/// The slot of `button` in the editor UI's mouse state, which tracks the
/// first five buttons only.
pub fn imgui_mouse_slot(button: MouseButton) -> (slot: Option<usize>)
    ensures
        slot == match button {
            MouseButton::Left => Some(0usize),
            MouseButton::Right => Some(1usize),
            MouseButton::Middle => Some(2usize),
            MouseButton::Other(idx) => if idx <= 4 {
                Some(idx as usize)
            } else {
                None
            },
        },
{
    match button {
        MouseButton::Left => Some(0),
        MouseButton::Right => Some(1),
        MouseButton::Middle => Some(2),
        MouseButton::Other(idx) => {
            if idx <= 4 {
                Some(idx as usize)
            } else {
                None
            }
        },
    }
}

/// Whether a typed character goes to the editor UI: everything but the
/// delete character, which the backspace key produces on some platforms
/// and which the UI handles as a key instead.
pub fn accepts_input_character(ch: char) -> (accepted: bool)
    ensures
        accepted == (ch != '\u{7f}'),
{
    ch != '\u{7f}'
}

} // verus!
