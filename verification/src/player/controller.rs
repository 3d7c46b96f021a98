//! What the keyboard does to the player's controller.

use vstd::prelude::*;

verus! {

/// The keys the controller knows, and `Other` for every other key.
#[derive(Debug, Clone, Copy, PartialEq, Eq, Structural)]
pub enum Key {
    KeyW,
    ArrowUp,
    KeyS,
    ArrowDown,
    KeyA,
    ArrowLeft,
    KeyD,
    ArrowRight,
    Space,
    ShiftLeft,
    Digit1,
    Digit2,
    Digit3,
    Digit4,
    Digit5,
    Digit6,
    Digit7,
    Digit8,
    Digit9,
    Digit0,
    Other,
}

/// The keyboard state of the player: which movement keys are held, and the
/// material that the next placed block will have.
#[derive(Debug, Clone, Copy, PartialEq, Eq, Structural)]
pub struct PlayerController {
    pub forward: bool,
    pub backward: bool,
    pub left: bool,
    pub right: bool,
    pub up: bool,
    pub down: bool,
    pub picked_block: u8,
}

/// The material a digit key picks: 1 to 9 for their digit, 10 for the key 0.
pub open spec fn picked_by(key: Key) -> Option<u8> {
    match key {
        Key::Digit1 => Some(1u8),
        Key::Digit2 => Some(2u8),
        Key::Digit3 => Some(3u8),
        Key::Digit4 => Some(4u8),
        Key::Digit5 => Some(5u8),
        Key::Digit6 => Some(6u8),
        Key::Digit7 => Some(7u8),
        Key::Digit8 => Some(8u8),
        Key::Digit9 => Some(9u8),
        Key::Digit0 => Some(10u8),
        _ => None,
    }
}

/// Whether the controller reacts to the key at all.
pub open spec fn key_handled(key: Key) -> bool {
    key != Key::Other
}

/// The controller after `key` went down (`pressed`) or up.
///
/// A movement key sets its direction to `pressed`. A digit key picks its
/// material, on release as on press. Any other key changes nothing.
pub open spec fn after_key(state: PlayerController, key: Key, pressed: bool) -> PlayerController {
    match key {
        Key::KeyW | Key::ArrowUp => PlayerController { forward: pressed, ..state },
        Key::KeyS | Key::ArrowDown => PlayerController { backward: pressed, ..state },
        Key::KeyA | Key::ArrowLeft => PlayerController { left: pressed, ..state },
        Key::KeyD | Key::ArrowRight => PlayerController { right: pressed, ..state },
        Key::Space => PlayerController { up: pressed, ..state },
        Key::ShiftLeft => PlayerController { down: pressed, ..state },
        Key::Other => state,
        _ => PlayerController { picked_block: picked_by(key)->0, ..state },
    }
}

impl PlayerController {
    /// A controller with no key held and material 1 picked.
    pub fn new() -> (controller: PlayerController)
        ensures
            controller == (PlayerController {
                forward: false,
                backward: false,
                left: false,
                right: false,
                up: false,
                down: false,
                picked_block: 1,
            }),
    {
        PlayerController {
            forward: false,
            backward: false,
            left: false,
            right: false,
            up: false,
            down: false,
            picked_block: 1,
        }
    }

    /// Takes note of a key going down or up, and tells whether the key is
    /// one the controller reacts to.
    pub fn process_keyboard(&mut self, key: Key, pressed: bool) -> (handled: bool)
        ensures
            *final(self) == after_key(*old(self), key, pressed),
            handled == key_handled(key),
    {
        match key {
            Key::KeyW | Key::ArrowUp => {
                self.forward = pressed;
                true
            },
            Key::KeyS | Key::ArrowDown => {
                self.backward = pressed;
                true
            },
            Key::KeyA | Key::ArrowLeft => {
                self.left = pressed;
                true
            },
            Key::KeyD | Key::ArrowRight => {
                self.right = pressed;
                true
            },
            Key::Space => {
                self.up = pressed;
                true
            },
            Key::ShiftLeft => {
                self.down = pressed;
                true
            },
            Key::Digit1 => {
                self.picked_block = 1;
                true
            },
            Key::Digit2 => {
                self.picked_block = 2;
                true
            },
            Key::Digit3 => {
                self.picked_block = 3;
                true
            },
            Key::Digit4 => {
                self.picked_block = 4;
                true
            },
            Key::Digit5 => {
                self.picked_block = 5;
                true
            },
            Key::Digit6 => {
                self.picked_block = 6;
                true
            },
            Key::Digit7 => {
                self.picked_block = 7;
                true
            },
            Key::Digit8 => {
                self.picked_block = 8;
                true
            },
            Key::Digit9 => {
                self.picked_block = 9;
                true
            },
            Key::Digit0 => {
                self.picked_block = 10;
                true
            },
            Key::Other => false,
        }
    }
}

} // verus!
