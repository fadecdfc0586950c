//! The screens of the game, and where its files were found.

pub mod game_state;
pub mod resource_manager;

pub use game_state::{StateId, StateTracker, Transition};
pub use resource_manager::ResourceManager;
