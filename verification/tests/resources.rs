use rustux::engine::resource_manager::{common_textures, config_path, level_path, not_found};
use rustux::engine::ResourceManager;
use rustux::util::strings::StringMap;
use rustux::util::{get_extension, Error};

#[test]
fn extension_is_what_follows_the_last_dot() {
    assert_eq!(get_extension("tux.bmp"), Some(String::from("bmp")));
    assert_eq!(get_extension("data/textures/Tux.PNG"), Some(String::from("png")));
    assert_eq!(get_extension("archive.tar.GZ"), Some(String::from("gz")));
    assert_eq!(get_extension("/abs/dir.d/file.Json"), Some(String::from("json")));
    assert_eq!(get_extension("name."), Some(String::new()));
    assert_eq!(get_extension("..."), Some(String::new()));
    assert_eq!(get_extension("..a"), Some(String::from("a")));
    assert_eq!(get_extension("\u{e9}t\u{e9}.\u{c9}T\u{c9}"), Some(String::from("\u{e9}t\u{e9}")));
}

#[test]
fn names_without_an_extension() {
    assert_eq!(get_extension(""), None);
    assert_eq!(get_extension("README"), None);
    assert_eq!(get_extension(".bashrc"), None);
    assert_eq!(get_extension("dir/.hidden"), None);
    assert_eq!(get_extension(".."), None);
    assert_eq!(get_extension("dir/.."), None);
    assert_eq!(get_extension("dir.d/file"), None);
    assert_eq!(get_extension("."), None);
}

#[test]
fn found_files_are_remembered() {
    let mut manager = ResourceManager::new();
    assert_eq!(manager.get_texture_path("tux"), None);
    let kept = manager.load_texture(String::from("tux"), String::from("data/textures/tux.bmp"), true);
    assert_eq!(kept.unwrap(), "data/textures/tux.bmp");
    assert_eq!(manager.get_texture_path("tux"), Some(&String::from("data/textures/tux.bmp")));
    assert_eq!(manager.get_sound_path("tux"), None);
    // A name that is loaded again is found where it was found last.
    manager.load_texture(String::from("tux"), String::from("other/tux.bmp"), true).unwrap();
    assert_eq!(manager.get_texture_path("tux"), Some(&String::from("other/tux.bmp")));
    manager.load_texture(String::from("coin"), String::from("data/coin.bmp"), true).unwrap();
    manager.load_sound(String::from("jump"), String::from("data/jump.wav"), true).unwrap();
    assert_eq!(manager.get_sound_path("jump"), Some(&String::from("data/jump.wav")));
    assert_eq!(manager.get_cached_textures(), vec![String::from("tux"), String::from("coin")]);
    assert_eq!(manager.get_cached_sounds(), vec![String::from("jump")]);
    manager.clear_cache();
    assert_eq!(manager.get_texture_path("tux"), None);
    assert_eq!(manager.get_sound_path("jump"), None);
    assert!(manager.get_cached_textures().is_empty());
    assert!(manager.get_cached_sounds().is_empty());
}

#[test]
fn missing_files_are_errors_and_change_nothing() {
    let mut manager = ResourceManager::new();
    manager.load_texture(String::from("tux"), String::from("a/tux.bmp"), true).unwrap();
    match manager.load_texture(String::from("tux"), String::from("b/tux.bmp"), false) {
        Err(Error::ResourceNotFound(text)) => assert_eq!(text, "Texture file not found: b/tux.bmp"),
        other => panic!("{:?}", other),
    }
    assert_eq!(manager.get_texture_path("tux"), Some(&String::from("a/tux.bmp")));
    match manager.load_sound(String::from("jump"), String::from("b/jump.wav"), false) {
        Err(Error::ResourceNotFound(text)) => assert_eq!(text, "Sound file not found: b/jump.wav"),
        other => panic!("{:?}", other),
    }
    assert_eq!(manager.get_sound_path("jump"), None);
    match not_found("Level", "levels/one.json") {
        Error::ResourceNotFound(text) => assert_eq!(text, "Level file not found: levels/one.json"),
        other => panic!("{:?}", other),
    }
}

#[test]
fn files_of_the_game() {
    assert_eq!(level_path("one"), "levels/one.json");
    assert_eq!(config_path("input"), "config/input.toml");
    let list = common_textures();
    let pairs: Vec<(&str, &str)> = list.iter().map(|(n, p)| (n.as_str(), p.as_str())).collect();
    assert_eq!(
        pairs,
        vec![
            ("tux", "textures/tux.bmp"),
            ("platform", "textures/platform.bmp"),
            ("ground", "textures/ground.bmp"),
            ("coin", "textures/coin.bmp"),
        ]
    );
}

#[test]
fn names_of_a_string_map() {
    let mut map = StringMap::new();
    assert!(map.names().is_empty());
    map.insert(String::from("b"), String::from("1"));
    map.insert(String::from("a"), String::from("2"));
    map.insert(String::from("b"), String::from("3"));
    assert_eq!(map.names(), vec![String::from("b"), String::from("a")]);
    map.clear();
    assert_eq!(map.len(), 0);
    assert!(map.names().is_empty());
    assert_eq!(map.get("a"), None);
}
