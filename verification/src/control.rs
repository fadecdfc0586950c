//! What the player can ask for, and what it can be bound to.

use vstd::prelude::*;

pub mod input;
pub mod utils;

pub use input::{InputConfig, InputEvent, InputManager, InputState};

verus! {

/// What input can ask of the game.
#[derive(Debug, Clone, Copy, PartialEq, Eq, Hash, Structural)]
pub enum GameAction {
    MoveLeft,
    MoveRight,
    Jump,
    Duck,
    Run,
    Pause,
    Menu,
    Confirm,
    Cancel,
    ToggleDebug,
    Screenshot,
    MenuUp,
    MenuDown,
    MenuLeft,
    MenuRight,
    MenuSelect,
    MenuBack,
}

/// Where input comes from.
#[derive(Debug, Clone, Copy, PartialEq, Eq, Hash, Structural)]
pub enum InputDevice {
    Keyboard,
    Mouse,
    /// A gamepad, by its number.
    Gamepad(u32),
}

/// What an action is bound to.
#[derive(Debug, Clone, PartialEq, Eq, Hash)]
pub enum InputBinding {
    /// A key, by its name.
    Key(String),
    MouseButton(u8),
    /// A button of a gamepad: the gamepad, then the button.
    GamepadButton(u32, u8),
    /// One side of an axis of a gamepad: the gamepad, the axis, and whether
    /// the side is the positive one.
    GamepadAxis(u32, u8, bool),
}

impl InputBinding {
    /// A binding to a key with the given name.
    pub fn key_named(name: String) -> (binding: Self)
        ensures
            binding == InputBinding::Key(name),
    {
        InputBinding::Key(name)
    }

    /// A binding to a button of a gamepad.
    pub fn gamepad_button(gamepad_id: u32, button: u8) -> (binding: Self)
        ensures
            binding == InputBinding::GamepadButton(gamepad_id, button),
    {
        InputBinding::GamepadButton(gamepad_id, button)
    }

    /// A binding to one side of an axis of a gamepad.
    pub fn gamepad_axis(gamepad_id: u32, axis: u8, positive: bool) -> (binding: Self)
        ensures
            binding == InputBinding::GamepadAxis(gamepad_id, axis, positive),
    {
        InputBinding::GamepadAxis(gamepad_id, axis, positive)
    }
}

impl GameAction {
    /// The place of the action in the order in which the actions are
    /// declared.
    pub open spec fn ordinal(self) -> int {
        match self {
            GameAction::MoveLeft => 0,
            GameAction::MoveRight => 1,
            GameAction::Jump => 2,
            GameAction::Duck => 3,
            GameAction::Run => 4,
            GameAction::Pause => 5,
            GameAction::Menu => 6,
            GameAction::Confirm => 7,
            GameAction::Cancel => 8,
            GameAction::ToggleDebug => 9,
            GameAction::Screenshot => 10,
            GameAction::MenuUp => 11,
            GameAction::MenuDown => 12,
            GameAction::MenuLeft => 13,
            GameAction::MenuRight => 14,
            GameAction::MenuSelect => 15,
            GameAction::MenuBack => 16,
        }
    }

    /// The place of the action in the order in which the actions are
    /// declared.
    pub fn index(self) -> (i: usize)
        ensures
            i == self.ordinal(),
    {
        match self {
            GameAction::MoveLeft => 0,
            GameAction::MoveRight => 1,
            GameAction::Jump => 2,
            GameAction::Duck => 3,
            GameAction::Run => 4,
            GameAction::Pause => 5,
            GameAction::Menu => 6,
            GameAction::Confirm => 7,
            GameAction::Cancel => 8,
            GameAction::ToggleDebug => 9,
            GameAction::Screenshot => 10,
            GameAction::MenuUp => 11,
            GameAction::MenuDown => 12,
            GameAction::MenuLeft => 13,
            GameAction::MenuRight => 14,
            GameAction::MenuSelect => 15,
            GameAction::MenuBack => 16,
        }
    }
}

impl InputBinding {
    /// The two bindings are to the same key, button or side of an axis.
    pub open spec fn same(self, other: InputBinding) -> bool {
        match (self, other) {
            (InputBinding::Key(a), InputBinding::Key(b)) => a@ == b@,
            (InputBinding::MouseButton(a), InputBinding::MouseButton(b)) => a == b,
            (InputBinding::GamepadButton(g, b), InputBinding::GamepadButton(h, c)) => g == h && b
                == c,
            (InputBinding::GamepadAxis(g, a, p), InputBinding::GamepadAxis(h, b, q)) => g == h
                && a == b && p == q,
            _ => false,
        }
    }

    /// Whether two bindings are to the same key, button or side of an
    /// axis.
    pub fn same_as(&self, other: &InputBinding) -> (same: bool)
        ensures
            same == self.same(*other),
    {
        match (self, other) {
            (InputBinding::Key(a), InputBinding::Key(b)) => *a == *b,
            (InputBinding::MouseButton(a), InputBinding::MouseButton(b)) => *a == *b,
            (InputBinding::GamepadButton(g, b), InputBinding::GamepadButton(h, c)) => *g == *h
                && *b == *c,
            (InputBinding::GamepadAxis(g, a, p), InputBinding::GamepadAxis(h, b, q)) => *g == *h
                && *a == *b && *p == *q,
            _ => false,
        }
    }
}

} // verus!
