//! What the menus are made of.

use vstd::prelude::*;
use vstd::string::StringExecFns;

pub mod button;
pub mod menu;
pub mod text;

pub use button::ButtonState;
pub use menu::MenuItem;
pub use text::TextAlign;

verus! {

/// What a widget reports.
#[derive(Debug, Clone)]
pub enum GuiEvent {
    /// A button was clicked: its id.
    ButtonClicked(String),
    /// An item of a menu was chosen: its id.
    MenuItemSelected(String),
    /// A text changed: the id of the widget, then the new text.
    TextChanged(String, String),
}

/// The look of the widgets.
#[derive(Debug)]
pub struct GuiTheme {
    /// Texture of a button at rest.
    pub button_normal: String,
    /// Texture of a button under the pointer.
    pub button_hovered: String,
    /// Texture of a button held down.
    pub button_pressed: String,
    /// Texture of a button that cannot be used.
    pub button_disabled: String,
    /// Texture behind a menu.
    pub menu_background: String,
    /// Color of text: red, green, blue.
    pub text_color: (u8, u8, u8),
    /// Color of what is chosen.
    pub highlight_color: (u8, u8, u8),
    /// Size of text.
    pub font_size: u32,
}

impl GuiTheme {
    /// The theme of the game: white text of size 20, highlighted in yellow.
    pub fn supertux_theme() -> (theme: Self)
        ensures
            theme.button_normal@ == "supertux_button_normal"@,
            theme.button_hovered@ == "supertux_button_hovered"@,
            theme.button_pressed@ == "supertux_button_pressed"@,
            theme.button_disabled@ == "supertux_button_disabled"@,
            theme.menu_background@ == "supertux_menu_bg"@,
            theme.text_color == (255u8, 255u8, 255u8),
            theme.highlight_color == (255u8, 255u8, 0u8),
            theme.font_size == 20,
    {
        Self {
            button_normal: String::from_str("supertux_button_normal"),
            button_hovered: String::from_str("supertux_button_hovered"),
            button_pressed: String::from_str("supertux_button_pressed"),
            button_disabled: String::from_str("supertux_button_disabled"),
            menu_background: String::from_str("supertux_menu_bg"),
            text_color: (255, 255, 255),
            highlight_color: (255, 255, 0),
            font_size: 20,
        }
    }
}

impl Clone for GuiTheme {
    fn clone(&self) -> (theme: Self)
        ensures
            theme == *self,
    {
        Self {
            button_normal: self.button_normal.clone(),
            button_hovered: self.button_hovered.clone(),
            button_pressed: self.button_pressed.clone(),
            button_disabled: self.button_disabled.clone(),
            menu_background: self.menu_background.clone(),
            text_color: self.text_color,
            highlight_color: self.highlight_color,
            font_size: self.font_size,
        }
    }
}

impl Default for GuiTheme {
    /// The plain theme: white text of size 16, highlighted in yellow.
    fn default() -> (theme: Self)
        ensures
            theme.button_normal@ == "button_normal"@,
            theme.button_hovered@ == "button_hovered"@,
            theme.button_pressed@ == "button_pressed"@,
            theme.button_disabled@ == "button_disabled"@,
            theme.menu_background@ == "menu_background"@,
            theme.text_color == (255u8, 255u8, 255u8),
            theme.highlight_color == (255u8, 255u8, 0u8),
            theme.font_size == 16,
    {
        Self {
            button_normal: String::from_str("button_normal"),
            button_hovered: String::from_str("button_hovered"),
            button_pressed: String::from_str("button_pressed"),
            button_disabled: String::from_str("button_disabled"),
            menu_background: String::from_str("menu_background"),
            text_color: (255, 255, 255),
            highlight_color: (255, 255, 0),
            font_size: 16,
        }
    }
}

} // verus!
