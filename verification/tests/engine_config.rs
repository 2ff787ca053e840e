use wallpaperengine_player::engine_config::{start_from_current, WallpaperEngineConfig};
use wallpaperengine_player::error::{ConfigError, Node};
use wallpaperengine_player::json::{Json, JsonNumber};

fn s(t: &str) -> Json {
    Json::Str(t.to_string())
}

fn obj(fields: Vec<(&str, Json)>) -> Json {
    Json::Object(fields.into_iter().map(|(k, v)| (k.to_string(), v)).collect())
}

fn num(n: u64) -> Json {
    Json::Number(JsonNumber::PosInt(n))
}

fn playlist(name: &str, order: &str, beginfirst: bool, items: Vec<&str>) -> Json {
    obj(vec![
        ("name", s(name)),
        (
            "settings",
            obj(vec![
                ("beginfirst", Json::Bool(beginfirst)),
                ("delay", num(5)),
                ("mode", s("timer")),
                ("order", s(order)),
                ("videosequence", Json::Bool(true)),
            ]),
        ),
        ("items", Json::Array(items.into_iter().map(s).collect())),
    ])
}

fn config_with(playlists: Vec<Json>) -> WallpaperEngineConfig {
    let folders = Json::Array(vec![
        obj(vec![
            ("title", s("favorites")),
            ("items", obj(vec![("111", num(1)), ("222", num(1))])),
        ]),
        obj(vec![("items", Json::Array(vec![]))]),
        obj(vec![("title", s("favorites")), ("items", obj(vec![("999", num(1))]))]),
    ]);
    let profiles = Json::Array(vec![obj(vec![
        ("name", s("desk")),
        (
            "selectedwallpapers",
            obj(vec![("Monitor0", obj(vec![("file", s("/steam/workshop/431960/333/scene.pkg"))]))]),
        ),
    ])]);
    let general = obj(vec![
        ("browser", obj(vec![("folders", folders)])),
        ("playlists", Json::Array(playlists)),
        ("profiles", profiles),
    ]);
    WallpaperEngineConfig::from_source(obj(vec![("steamuser", obj(vec![("general", general)]))]))
}

fn sample() -> WallpaperEngineConfig {
    config_with(vec![
        playlist("other", "sequential", false, vec![]),
        playlist(
            "mine",
            "sequential",
            false,
            vec!["/w/111/scene.pkg", "", "/w/222/scene.pkg", "/w/333/video.mp4"],
        ),
    ])
}

fn ids(v: &[String]) -> Vec<&str> {
    v.iter().map(|x| x.as_str()).collect()
}

#[test]
fn read_playlist_extracts_ids() {
    let c = sample();
    let p = c.read_playlist("mine").unwrap();
    assert_eq!(ids(&p.wallpaper_ids), vec!["111", "222", "333"]);
    assert_eq!(p.mode, "timer");
    assert_eq!(p.order, "sequential");
    assert_eq!(p.delay, 5);
    assert!(p.videosequence);
    assert!(!p.beginfirst);
}

#[test]
fn load_playlist_starts_at_current() {
    let c = sample();
    let p = c.load_playlist("mine", &Some("222".to_string())).unwrap();
    assert_eq!(ids(&p.wallpaper_ids), vec!["222", "333", "111"]);
}

#[test]
fn load_playlist_unknown_current_keeps_order() {
    let c = sample();
    let p = c.load_playlist("mine", &Some("777".to_string())).unwrap();
    assert_eq!(ids(&p.wallpaper_ids), vec!["111", "222", "333"]);
    let p = c.load_playlist("mine", &None).unwrap();
    assert_eq!(ids(&p.wallpaper_ids), vec!["111", "222", "333"]);
}

#[test]
fn load_playlist_beginfirst_ignores_current() {
    let c = config_with(vec![playlist("p", "sequential", true, vec!["/w/1/a", "/w/2/a", "/w/3/a"])]);
    let p = c.load_playlist("p", &Some("2".to_string())).unwrap();
    assert_eq!(ids(&p.wallpaper_ids), vec!["1", "2", "3"]);
}

#[test]
fn load_playlist_random_is_a_permutation_from_current() {
    let items = vec!["/w/1/a", "/w/2/a", "/w/3/a", "/w/4/a", "/w/5/a"];
    let c = config_with(vec![playlist("p", "random", false, items)]);
    for _ in 0..20 {
        let p = c.load_playlist("p", &Some("4".to_string())).unwrap();
        assert_eq!(p.wallpaper_ids[0], "4");
        let mut sorted = ids(&p.wallpaper_ids);
        sorted.sort();
        assert_eq!(sorted, vec!["1", "2", "3", "4", "5"]);
    }
}

#[test]
fn playlist_errors() {
    let c = sample();
    assert_eq!(c.read_playlist("none").err(), Some(ConfigError::NoSuchPlaylist));
    let empty = WallpaperEngineConfig::from_source(obj(vec![]));
    assert_eq!(empty.read_playlist("mine").err(), Some(ConfigError::Missing(Node::Steamuser)));
    let no_general = WallpaperEngineConfig::from_source(obj(vec![("steamuser", obj(vec![]))]));
    assert_eq!(no_general.read_playlist("mine").err(), Some(ConfigError::Missing(Node::General)));
    let not_array = WallpaperEngineConfig::from_source(obj(vec![(
        "steamuser",
        obj(vec![("general", obj(vec![("playlists", num(3))]))]),
    )]));
    assert_eq!(not_array.read_playlist("mine").err(), Some(ConfigError::NotArray(Node::Playlists)));
    let no_settings = config_with(vec![obj(vec![("name", s("p"))])]);
    assert_eq!(no_settings.read_playlist("p").err(), Some(ConfigError::Missing(Node::Settings)));
}

#[test]
fn playlist_setting_errors() {
    let mut bad_delay = playlist("p", "sequential", false, vec![]);
    if let Json::Object(fields) = &mut bad_delay {
        fields[1].1 = obj(vec![("delay", Json::Number(JsonNumber::NegInt(-1))), ("order", s("x")), ("mode", s("y"))]);
    }
    assert_eq!(config_with(vec![bad_delay]).read_playlist("p").err(), Some(ConfigError::NotU64(Node::Delay)));
    let mut float_delay = playlist("p", "sequential", false, vec![]);
    if let Json::Object(fields) = &mut float_delay {
        fields[1].1 = obj(vec![
            ("delay", Json::Number(JsonNumber::Other("1.5".to_string()))),
            ("order", s("x")),
            ("mode", s("y")),
        ]);
    }
    assert_eq!(config_with(vec![float_delay]).read_playlist("p").err(), Some(ConfigError::NotU64(Node::Delay)));
    let mut no_order = playlist("p", "sequential", false, vec![]);
    if let Json::Object(fields) = &mut no_order {
        fields[1].1 = obj(vec![("delay", num(1)), ("mode", s("y"))]);
    }
    assert_eq!(config_with(vec![no_order]).read_playlist("p").err(), Some(ConfigError::Missing(Node::Order)));
    let mut mode_number = playlist("p", "sequential", false, vec![]);
    if let Json::Object(fields) = &mut mode_number {
        fields[1].1 = obj(vec![("delay", num(1)), ("order", s("x")), ("mode", num(2))]);
    }
    assert_eq!(config_with(vec![mode_number]).read_playlist("p").err(), Some(ConfigError::NotString(Node::Mode)));
}

#[test]
fn playlist_item_errors() {
    let c = config_with(vec![playlist("p", "sequential", false, vec!["/w/1/a", "scene.pkg"])]);
    assert_eq!(c.read_playlist("p").err(), Some(ConfigError::NoWallpaperId));
    let mut not_str = playlist("p", "sequential", false, vec!["/w/1/a"]);
    if let Json::Object(fields) = &mut not_str {
        fields[2].1 = Json::Array(vec![num(3)]);
    }
    assert_eq!(config_with(vec![not_str]).read_playlist("p").err(), Some(ConfigError::ItemNotString));
    let mut no_items = playlist("p", "sequential", false, vec![]);
    if let Json::Object(fields) = &mut no_items {
        fields.pop();
    }
    assert_eq!(config_with(vec![no_items]).read_playlist("p").err(), Some(ConfigError::Missing(Node::Items)));
}

#[test]
fn folders_are_read_in_order() {
    let c = sample();
    let folders = c.get_folders().unwrap();
    assert_eq!(folders.len(), 3);
    assert_eq!(folders[0].title, "favorites");
    assert_eq!(ids(&folders[0].items), vec!["111", "222"]);
    assert_eq!(folders[1].title, "unknown");
    assert!(folders[1].items.is_empty());
}

#[test]
fn folder_lookup_finds_first() {
    let c = sample();
    let f = c.get_wallpaper_fodler("favorites").unwrap().unwrap();
    assert_eq!(ids(&f.items), vec!["111", "222"]);
    assert!(c.get_wallpaper_fodler("nothing").unwrap().is_none());
    let empty = WallpaperEngineConfig::from_source(obj(vec![]));
    assert_eq!(empty.get_folders().err(), Some(ConfigError::Missing(Node::Steamuser)));
}

#[test]
fn profile_gives_wallpaper_id() {
    let mut c = sample();
    c.load_profile("desk").unwrap();
    assert_eq!(c.profile.as_ref().unwrap().wallpaper_id, "333");
    let mut c = sample();
    assert_eq!(c.load_profile("laptop").err(), Some(ConfigError::NoSuchProfile));
    assert!(c.profile.is_none());
}

#[test]
fn profile_errors() {
    let profile = |sel: Json| {
        let general = obj(vec![("profiles", Json::Array(vec![obj(vec![("name", s("d")), ("selectedwallpapers", sel)])]))]);
        WallpaperEngineConfig::from_source(obj(vec![("steamuser", obj(vec![("general", general)]))]))
    };
    let mut c = profile(obj(vec![]));
    assert_eq!(c.load_profile("d").err(), Some(ConfigError::Missing(Node::Monitor0)));
    let mut c = profile(obj(vec![("Monitor0", obj(vec![("file", s("scene.pkg"))]))]));
    assert_eq!(c.load_profile("d").err(), Some(ConfigError::NoDirName));
    let mut c = profile(obj(vec![("Monitor0", obj(vec![("file", num(1))]))]));
    assert_eq!(c.load_profile("d").err(), Some(ConfigError::NotString(Node::File)));
}

#[test]
fn start_from_current_rotates() {
    let v: Vec<String> = vec!["a", "b", "c", "b"].into_iter().map(String::from).collect();
    assert_eq!(ids(&start_from_current(v.clone(), "b")), vec!["b", "c", "b", "a"]);
    assert_eq!(ids(&start_from_current(v.clone(), "a")), vec!["a", "b", "c", "b"]);
    assert_eq!(ids(&start_from_current(v.clone(), "z")), vec!["a", "b", "c", "b"]);
    assert!(start_from_current(vec![], "a").is_empty());
}
