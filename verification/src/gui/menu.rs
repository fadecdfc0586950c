//! Menus.

use vstd::prelude::*;

verus! {

/// One line of a menu.
#[derive(Debug, Clone)]
pub struct MenuItem {
    /// What the item is known by.
    pub id: String,
    /// What the item reads.
    pub text: String,
    /// Whether the item can be chosen.
    pub enabled: bool,
    /// What to call when the item is chosen.
    pub callback: Option<String>,
}

impl MenuItem {
    /// An item that can be chosen and calls nothing.
    pub fn new(id: String, text: String) -> (item: Self)
        ensures
            item.id == id,
            item.text == text,
            item.enabled,
            item.callback is None,
    {
        Self { id, text, enabled: true, callback: None }
    }

    /// The same item with something to call.
    pub fn with_callback(self, callback: String) -> (item: Self)
        ensures
            item.id == self.id,
            item.text == self.text,
            item.enabled == self.enabled,
            item.callback == Some(callback),
    {
        let mut item = self;
        item.callback = Some(callback);
        item
    }

    /// The same item, that can be chosen or not.
    pub fn with_enabled(self, enabled: bool) -> (item: Self)
        ensures
            item.id == self.id,
            item.text == self.text,
            item.enabled == enabled,
            item.callback == self.callback,
    {
        let mut item = self;
        item.enabled = enabled;
        item
    }
}

} // verus!
