//! What can go wrong, and where.

use vstd::prelude::*;
use vstd::string::StringExecFns;

verus! {

/// An error of the engine: where it arose, and a message.
#[derive(Debug, Clone)]
pub enum Error {
    Sdl2(String),
    Io(String),
    Json(String),
    Toml(String),
    ResourceNotFound(String),
    InvalidConfig(String),
    GameLogic(String),
    Audio(String),
    Video(String),
    Physics(String),
    LevelLoading(String),
    SpriteLoading(String),
    AssetDownload(String),
    Unknown(String),
}

impl Error {
    /// The message of the error.
    pub open spec fn message(self) -> String {
        match self {
            Error::Sdl2(m) => m,
            Error::Io(m) => m,
            Error::Json(m) => m,
            Error::Toml(m) => m,
            Error::ResourceNotFound(m) => m,
            Error::InvalidConfig(m) => m,
            Error::GameLogic(m) => m,
            Error::Audio(m) => m,
            Error::Video(m) => m,
            Error::Physics(m) => m,
            Error::LevelLoading(m) => m,
            Error::SpriteLoading(m) => m,
            Error::AssetDownload(m) => m,
            Error::Unknown(m) => m,
        }
    }

    /// What stands before the message when the error is shown.
    pub open spec fn label_text(self) -> Seq<char> {
        match self {
            Error::Sdl2(_) => "SDL2 error"@,
            Error::Io(_) => "IO error"@,
            Error::Json(_) => "JSON parsing error"@,
            Error::Toml(_) => "TOML parsing error"@,
            Error::ResourceNotFound(_) => "Resource not found"@,
            Error::InvalidConfig(_) => "Invalid configuration"@,
            Error::GameLogic(_) => "Game logic error"@,
            Error::Audio(_) => "Audio error"@,
            Error::Video(_) => "Video error"@,
            Error::Physics(_) => "Physics error"@,
            Error::LevelLoading(_) => "Level loading error"@,
            Error::SpriteLoading(_) => "Sprite loading error"@,
            Error::AssetDownload(_) => "Asset download error"@,
            Error::Unknown(_) => "Unknown error"@,
        }
    }

    /// What stands before the message when the error is shown.
    pub fn label(&self) -> (label: &'static str)
        ensures
            label@ == self.label_text(),
    {
        match self {
            Error::Sdl2(_) => "SDL2 error",
            Error::Io(_) => "IO error",
            Error::Json(_) => "JSON parsing error",
            Error::Toml(_) => "TOML parsing error",
            Error::ResourceNotFound(_) => "Resource not found",
            Error::InvalidConfig(_) => "Invalid configuration",
            Error::GameLogic(_) => "Game logic error",
            Error::Audio(_) => "Audio error",
            Error::Video(_) => "Video error",
            Error::Physics(_) => "Physics error",
            Error::LevelLoading(_) => "Level loading error",
            Error::SpriteLoading(_) => "Sprite loading error",
            Error::AssetDownload(_) => "Asset download error",
            Error::Unknown(_) => "Unknown error",
        }
    }

    /// The error as it is shown: what it is, a colon, and the message.
    pub fn to_text(&self) -> (text: String)
        ensures
            text@ == self.label_text() + ": "@ + self.message()@,
    {
        String::from_str(self.label()).concat(": ").concat(self.detail().as_str())
    }

    /// The message of the error.
    pub fn detail(&self) -> (message: &String)
        ensures
            *message == self.message(),
    {
        match self {
            Error::Sdl2(m) => m,
            Error::Io(m) => m,
            Error::Json(m) => m,
            Error::Toml(m) => m,
            Error::ResourceNotFound(m) => m,
            Error::InvalidConfig(m) => m,
            Error::GameLogic(m) => m,
            Error::Audio(m) => m,
            Error::Video(m) => m,
            Error::Physics(m) => m,
            Error::LevelLoading(m) => m,
            Error::SpriteLoading(m) => m,
            Error::AssetDownload(m) => m,
            Error::Unknown(m) => m,
        }
    }
}

/// What the engine hands back where something can go wrong.
pub type Result<T> = core::result::Result<T, Error>;

} // verus!
