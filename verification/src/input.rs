//! Input events, as they come off the wire and as they are handed to the
//! device.
//!
//! The coordinates of a touch are fractions. They are carried through here
//! untouched, as the bits of their single-precision form.

use vstd::prelude::*;

verus! {

#[derive(Debug, Clone, Copy, PartialEq, Eq, Structural)]
pub struct MouseEvent {
    pub x: i32,
    pub y: i32,
    pub buttons_mask: u32,
}

#[derive(Debug, Clone, Copy, PartialEq, Eq, Structural)]
pub struct WheelEvent {
    pub delta_x: i32,
    pub delta_y: i32,
}

#[derive(Debug, Clone, Copy, PartialEq, Eq, Structural)]
pub struct KeyEvent {
    pub key_code: u32,
    pub down: bool,
    pub up: bool,
    pub repeat: bool,
    pub modifiers_mask: u32,
}

#[derive(Debug, Clone, Copy, PartialEq, Eq, Structural)]
pub struct TouchEvent {
    pub pointer_id: u32,
    pub x_bits: u32,
    pub y_bits: u32,
    pub down: bool,
    pub moving: bool,
    pub up: bool,
}

#[derive(Debug, Clone, Copy, PartialEq, Eq, Structural)]
pub enum InputPayload {
    Mouse(MouseEvent),
    Wheel(WheelEvent),
    Key(KeyEvent),
    Touch(TouchEvent),
}

#[derive(Debug, Clone, PartialEq, Eq)]
pub struct InputEvent {
    pub session_id: String,
    pub source: i32,
    pub event_unix_ms: u64,
    pub payload: Option<InputPayload>,
}

#[derive(Debug, Clone, Copy, PartialEq, Eq, Structural)]
pub enum InputCommand {
    Mouse { x: i32, y: i32, buttons_mask: u32 },
    Wheel { delta_x: i32, delta_y: i32 },
    Key { key_code: u32, down: bool, up: bool, repeat: bool, modifiers_mask: u32 },
    Touch { pointer_id: u32, x_bits: u32, y_bits: u32, down: bool, move_: bool, up: bool },
}

#[derive(Debug, Clone, Copy, PartialEq, Eq, Structural)]
pub enum InputError {
    MissingPayload,
    InvalidKeyTransition,
}

/// The command that a payload stands for. A key cannot go down and up in
/// one event.
pub open spec fn command_of(payload: InputPayload) -> Result<InputCommand, InputError> {
    match payload {
        InputPayload::Mouse(mouse) => Ok(
            InputCommand::Mouse { x: mouse.x, y: mouse.y, buttons_mask: mouse.buttons_mask },
        ),
        InputPayload::Wheel(wheel) => Ok(
            InputCommand::Wheel { delta_x: wheel.delta_x, delta_y: wheel.delta_y },
        ),
        InputPayload::Key(key) => if key.down && key.up {
            Err(InputError::InvalidKeyTransition)
        } else {
            Ok(
                InputCommand::Key {
                    key_code: key.key_code,
                    down: key.down,
                    up: key.up,
                    repeat: key.repeat,
                    modifiers_mask: key.modifiers_mask,
                },
            )
        },
        InputPayload::Touch(touch) => Ok(
            InputCommand::Touch {
                pointer_id: touch.pointer_id,
                x_bits: touch.x_bits,
                y_bits: touch.y_bits,
                down: touch.down,
                move_: touch.moving,
                up: touch.up,
            },
        ),
    }
}

/// Turns an input event into the command to carry out. An event without a
/// payload is refused, and so is a key event that reports the key as going
/// down and up at once.
pub fn normalize_input_event(event: &InputEvent) -> (result: Result<InputCommand, InputError>)
    ensures
        result == match event.payload {
            Some(payload) => command_of(payload),
            None => Err(InputError::MissingPayload),
        },
{
    match event.payload {
        Some(InputPayload::Mouse(mouse)) => Ok(
            InputCommand::Mouse { x: mouse.x, y: mouse.y, buttons_mask: mouse.buttons_mask },
        ),
        Some(InputPayload::Wheel(wheel)) => Ok(
            InputCommand::Wheel { delta_x: wheel.delta_x, delta_y: wheel.delta_y },
        ),
        Some(InputPayload::Key(key)) => {
            if key.down && key.up {
                return Err(InputError::InvalidKeyTransition);
            }
            Ok(
                InputCommand::Key {
                    key_code: key.key_code,
                    down: key.down,
                    up: key.up,
                    repeat: key.repeat,
                    modifiers_mask: key.modifiers_mask,
                },
            )
        },
        Some(InputPayload::Touch(touch)) => Ok(
            InputCommand::Touch {
                pointer_id: touch.pointer_id,
                x_bits: touch.x_bits,
                y_bits: touch.y_bits,
                down: touch.down,
                move_: touch.moving,
                up: touch.up,
            },
        ),
        None => Err(InputError::MissingPayload),
    }
}

} // verus!
