//! Names for actions and bindings, as a settings screen shows them.

use vstd::prelude::*;
use vstd::string::StringExecFns;
use crate::control::{GameAction, InputBinding};

verus! {

/// The name of an action.
pub open spec fn name_of(action: GameAction) -> Seq<char> {
    match action {
        GameAction::MoveLeft => "Move Left"@,
        GameAction::MoveRight => "Move Right"@,
        GameAction::Jump => "Jump"@,
        GameAction::Duck => "Duck"@,
        GameAction::Run => "Run"@,
        GameAction::Pause => "Pause"@,
        GameAction::Menu => "Menu"@,
        GameAction::Confirm => "Confirm"@,
        GameAction::Cancel => "Cancel"@,
        GameAction::ToggleDebug => "Toggle Debug"@,
        GameAction::Screenshot => "Screenshot"@,
        GameAction::MenuUp => "Menu Up"@,
        GameAction::MenuDown => "Menu Down"@,
        GameAction::MenuLeft => "Menu Left"@,
        GameAction::MenuRight => "Menu Right"@,
        GameAction::MenuSelect => "Menu Select"@,
        GameAction::MenuBack => "Menu Back"@,
    }
}

/// The name of an action, for people to read.
pub fn action_name(action: GameAction) -> (name: &'static str)
    ensures
        name@ == name_of(action),
{
    match action {
        GameAction::MoveLeft => "Move Left",
        GameAction::MoveRight => "Move Right",
        GameAction::Jump => "Jump",
        GameAction::Duck => "Duck",
        GameAction::Run => "Run",
        GameAction::Pause => "Pause",
        GameAction::Menu => "Menu",
        GameAction::Confirm => "Confirm",
        GameAction::Cancel => "Cancel",
        GameAction::ToggleDebug => "Toggle Debug",
        GameAction::Screenshot => "Screenshot",
        GameAction::MenuUp => "Menu Up",
        GameAction::MenuDown => "Menu Down",
        GameAction::MenuLeft => "Menu Left",
        GameAction::MenuRight => "Menu Right",
        GameAction::MenuSelect => "Menu Select",
        GameAction::MenuBack => "Menu Back",
    }
}

/// The digit that stands for a number under ten.
pub open spec fn digit(d: nat) -> Seq<char> {
    if d == 0 {
        "0"@
    } else if d == 1 {
        "1"@
    } else if d == 2 {
        "2"@
    } else if d == 3 {
        "3"@
    } else if d == 4 {
        "4"@
    } else if d == 5 {
        "5"@
    } else if d == 6 {
        "6"@
    } else if d == 7 {
        "7"@
    } else if d == 8 {
        "8"@
    } else {
        "9"@
    }
}

/// A number written in decimal digits.
pub open spec fn decimal(n: nat) -> Seq<char>
    decreases n,
{
    if n < 10 {
        digit(n)
    } else {
        decimal(n / 10) + digit(n % 10)
    }
}

/// The digit that stands for a number under ten.
fn digit_of(d: u32) -> (text: &'static str)
    requires
        d < 10,
    ensures
        text@ == digit(d as nat),
{
    match d {
        0 => "0",
        1 => "1",
        2 => "2",
        3 => "3",
        4 => "4",
        5 => "5",
        6 => "6",
        7 => "7",
        8 => "8",
        _ => "9",
    }
}

/// Writes a number in decimal digits.
pub fn write_decimal(n: u32) -> (text: String)
    ensures
        text@ == decimal(n as nat),
    decreases n,
{
    if n < 10 {
        String::from_str(digit_of(n))
    } else {
        let head = write_decimal(n / 10);
        head.concat(digit_of(n % 10))
    }
}

/// What a binding reads as.
pub open spec fn description_of(binding: InputBinding) -> Seq<char> {
    match binding {
        InputBinding::Key(key_name) => "Key: "@ + key_name@,
        InputBinding::MouseButton(button) => "Mouse Button "@ + decimal(button as nat),
        InputBinding::GamepadButton(gamepad_id, button) => "Gamepad "@ + decimal(gamepad_id as nat)
            + " Button "@ + decimal(button as nat),
        InputBinding::GamepadAxis(gamepad_id, axis, positive) => "Gamepad "@ + decimal(
            gamepad_id as nat,
        ) + " Axis "@ + decimal(axis as nat) + " "@ + if positive {
            "+"@
        } else {
            "-"@
        },
    }
}

/// A description of a binding, for people to read.
pub fn binding_description(binding: &InputBinding) -> (text: String)
    ensures
        text@ == description_of(*binding),
{
    match binding {
        InputBinding::Key(key_name) => String::from_str("Key: ").concat(key_name.as_str()),
        InputBinding::MouseButton(button) => {
            let number = write_decimal(*button as u32);
            String::from_str("Mouse Button ").concat(number.as_str())
        },
        InputBinding::GamepadButton(gamepad_id, button) => {
            let pad = write_decimal(*gamepad_id);
            let number = write_decimal(*button as u32);
            String::from_str("Gamepad ").concat(pad.as_str()).concat(" Button ").concat(
                number.as_str(),
            )
        },
        InputBinding::GamepadAxis(gamepad_id, axis, positive) => {
            let pad = write_decimal(*gamepad_id);
            let number = write_decimal(*axis as u32);
            let side = if *positive {
                "+"
            } else {
                "-"
            };
            String::from_str("Gamepad ").concat(pad.as_str()).concat(" Axis ").concat(
                number.as_str(),
            ).concat(" ").concat(side)
        },
    }
}

} // verus!
