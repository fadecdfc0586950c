//! Where the files of the game were found: textures and sounds by name.
//!
//! Whether a file is there is for the caller to find out. What is made of
//! the answer is kept here.

use vstd::prelude::*;
use vstd::string::StringExecFns;
use crate::util::strings::StringMap;
use crate::util::{Error, Result};

verus! {

/// What a resource manager holds: the path under which each texture and
/// each sound was found, by name.
pub struct ResourceView {
    pub textures: Map<Seq<char>, Seq<char>>,
    pub sounds: Map<Seq<char>, Seq<char>>,
}

/// Remembers where textures and sounds were found.
#[derive(Debug, Clone)]
pub struct ResourceManager {
    texture_cache: StringMap,
    sound_cache: StringMap,
}

impl View for ResourceManager {
    type V = ResourceView;

    closed spec fn view(&self) -> ResourceView {
        ResourceView { textures: self.texture_cache@, sounds: self.sound_cache@ }
    }
}

/// What is said of a file that is not there: its kind, and where it was
/// looked for.
pub open spec fn not_found_text(kind: Seq<char>, full_path: Seq<char>) -> Seq<char> {
    kind + " file not found: "@ + full_path
}

/// The error for a file that is not there.
pub fn not_found(kind: &str, full_path: &str) -> (error: Error)
    ensures
        error is ResourceNotFound,
        error.message()@ == not_found_text(kind@, full_path@),
{
    Error::ResourceNotFound(String::from_str(kind).concat(" file not found: ").concat(full_path))
}

/// Where the data of a level lies among the files of the game.
pub open spec fn level_file(level_name: Seq<char>) -> Seq<char> {
    "levels/"@ + level_name + ".json"@
}

/// Where the data of a level lies among the files of the game.
pub fn level_path(level_name: &str) -> (path: String)
    ensures
        path@ == level_file(level_name@),
{
    String::from_str("levels/").concat(level_name).concat(".json")
}

/// Where a configuration lies among the files of the game.
pub open spec fn config_file(config_name: Seq<char>) -> Seq<char> {
    "config/"@ + config_name + ".toml"@
}

/// Where a configuration lies among the files of the game.
pub fn config_path(config_name: &str) -> (path: String)
    ensures
        path@ == config_file(config_name@),
{
    String::from_str("config/").concat(config_name).concat(".toml")
}

/// The textures that a game loads before it begins where they are there:
/// the name of each and where it lies among the files of the game.
pub open spec fn common() -> Seq<(Seq<char>, Seq<char>)> {
    seq![
        ("tux"@, "textures/tux.bmp"@),
        ("platform"@, "textures/platform.bmp"@),
        ("ground"@, "textures/ground.bmp"@),
        ("coin"@, "textures/coin.bmp"@),
    ]
}

/// The textures that a game loads before it begins: see `common`.
pub fn common_textures() -> (list: Vec<(String, String)>)
    ensures
        list@.len() == common().len(),
        forall|i: int|
            0 <= i < list@.len() ==> (#[trigger] list@[i]).0@ == common()[i].0 && list@[i].1@
                == common()[i].1,
{
    let mut list: Vec<(String, String)> = Vec::new();
    list.push((String::from_str("tux"), String::from_str("textures/tux.bmp")));
    list.push((String::from_str("platform"), String::from_str("textures/platform.bmp")));
    list.push((String::from_str("ground"), String::from_str("textures/ground.bmp")));
    list.push((String::from_str("coin"), String::from_str("textures/coin.bmp")));
    list
}

impl ResourceManager {
    /// No name is held twice.
    pub closed spec fn wf(&self) -> bool {
        self.texture_cache.wf() && self.sound_cache.wf()
    }

    /// A manager that has found nothing yet.
    pub fn new() -> (manager: Self)
        ensures
            manager.wf(),
            manager@.textures == Map::<Seq<char>, Seq<char>>::empty(),
            manager@.sounds == Map::<Seq<char>, Seq<char>>::empty(),
    {
        Self { texture_cache: StringMap::new(), sound_cache: StringMap::new() }
    }

    /// Files a texture under a name once its file was looked for under
    /// `full_path`: where the file is there, the path is remembered and
    /// handed back; where it is not, nothing changes and the error says so.
    pub fn load_texture(&mut self, name: String, full_path: String, exists: bool) -> (found: Result<
        String,
    >)
        requires
            old(self).wf(),
        ensures
            final(self).wf(),
            final(self)@.sounds == old(self)@.sounds,
            exists ==> found == Ok::<String, Error>(full_path) && final(self)@.textures == old(
                self,
            )@.textures.insert(name@, full_path@),
            !exists ==> found is Err && found->Err_0 is ResourceNotFound
                && found->Err_0.message()@ == not_found_text("Texture"@, full_path@)
                && final(self)@.textures == old(self)@.textures,
    {
        if !exists {
            return Err(not_found("Texture", full_path.as_str()));
        }
        self.texture_cache.insert(name, full_path.clone());
        Ok(full_path)
    }

    /// Where the texture of a name was found.
    pub fn get_texture_path(&self, name: &str) -> (path: Option<&String>)
        requires
            self.wf(),
        ensures
            match path {
                Some(p) => self@.textures.contains_key(name@) && self@.textures[name@] == p@,
                None => !self@.textures.contains_key(name@),
            },
    {
        self.texture_cache.get(name)
    }

    /// Files a sound under a name once its file was looked for under
    /// `full_path`: as `load_texture` does for a texture.
    pub fn load_sound(&mut self, name: String, full_path: String, exists: bool) -> (found: Result<
        String,
    >)
        requires
            old(self).wf(),
        ensures
            final(self).wf(),
            final(self)@.textures == old(self)@.textures,
            exists ==> found == Ok::<String, Error>(full_path) && final(self)@.sounds == old(
                self,
            )@.sounds.insert(name@, full_path@),
            !exists ==> found is Err && found->Err_0 is ResourceNotFound
                && found->Err_0.message()@ == not_found_text("Sound"@, full_path@)
                && final(self)@.sounds == old(self)@.sounds,
    {
        if !exists {
            return Err(not_found("Sound", full_path.as_str()));
        }
        self.sound_cache.insert(name, full_path.clone());
        Ok(full_path)
    }

    /// Where the sound of a name was found.
    pub fn get_sound_path(&self, name: &str) -> (path: Option<&String>)
        requires
            self.wf(),
        ensures
            match path {
                Some(p) => self@.sounds.contains_key(name@) && self@.sounds[name@] == p@,
                None => !self@.sounds.contains_key(name@),
            },
    {
        self.sound_cache.get(name)
    }

    /// Forgets every texture and every sound.
    pub fn clear_cache(&mut self)
        ensures
            final(self).wf(),
            final(self)@.textures == Map::<Seq<char>, Seq<char>>::empty(),
            final(self)@.sounds == Map::<Seq<char>, Seq<char>>::empty(),
    {
        self.texture_cache.clear();
        self.sound_cache.clear();
    }

    /// The names of the textures that were found, each once.
    pub fn get_cached_textures(&self) -> (names: Vec<String>)
        requires
            self.wf(),
        ensures
            forall|i: int, j: int|
                0 <= i < names@.len() && 0 <= j < names@.len() && i != j ==> names@[i]@
                    != names@[j]@,
            forall|name: Seq<char>|
                self@.textures.contains_key(name) <==> exists|i: int|
                    0 <= i < names@.len() && #[trigger] names@[i]@ == name,
    {
        self.texture_cache.names()
    }

    /// The names of the sounds that were found, each once.
    pub fn get_cached_sounds(&self) -> (names: Vec<String>)
        requires
            self.wf(),
        ensures
            forall|i: int, j: int|
                0 <= i < names@.len() && 0 <= j < names@.len() && i != j ==> names@[i]@
                    != names@[j]@,
            forall|name: Seq<char>|
                self@.sounds.contains_key(name) <==> exists|i: int|
                    0 <= i < names@.len() && #[trigger] names@[i]@ == name,
    {
        self.sound_cache.names()
    }
}

} // verus!
