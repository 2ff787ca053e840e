use wallpaperengine_player::control::{ControlAction, PlayState};
use wallpaperengine_player::play::initially_stopped;
use wallpaperengine_player::settings::{
    backup_path, current_wallpaper_contents, escape_quotes_exec, play_state_contents, pre_sddm_contents,
    pre_wallock_contents, replace_setting,
};

const CONFIG: &str = "[general]\ncurrent_wallpaper_id = \"1\"\ncurrent_wallpaper_name = \"old\"\nplay_state = \"Playing\"\n\n[sddm]\npre_sddm_wallpaper_id = \"5\"\n\n[wallock]\npre_wallock_wallpaper_id = \"6\"\n";

#[test]
fn replaces_the_setting_line() {
    let out = replace_setting(CONFIG, "current_wallpaper_id", "42").unwrap();
    assert!(out.contains("current_wallpaper_id = \"42\"\n"));
    assert!(!out.contains("current_wallpaper_id = \"1\""));
    assert!(out.contains("current_wallpaper_name = \"old\""));
}

#[test]
fn untouched_without_line() {
    let out = replace_setting("a = \"b\"\n", "current_wallpaper_id", "42").unwrap();
    assert_eq!(out, "a = \"b\"\n");
}

#[test]
fn only_at_line_start() {
    let out = replace_setting("x current_wallpaper_id = \"1\"\n", "current_wallpaper_id", "2").unwrap();
    assert_eq!(out, "x current_wallpaper_id = \"1\"\n");
}

#[test]
fn current_wallpaper_escapes_quotes() {
    let out = current_wallpaper_contents(CONFIG, "99", "say \"hi\"").unwrap();
    assert!(out.contains("current_wallpaper_id = \"99\"\n"));
    assert!(out.contains("current_wallpaper_name = \"say \\\"hi\\\"\"\n"));
}

#[test]
fn play_state_is_stored() {
    let (out, state) = play_state_contents(CONFIG, Some("Playing".to_string()), &ControlAction::Stop);
    assert_eq!(state, PlayState::Stopped);
    assert!(out.unwrap().contains("play_state = \"Stopped\"\n"));
    let (out, state) = play_state_contents(CONFIG, Some("Stopped".to_string()), &ControlAction::Next);
    assert_eq!(state, PlayState::Stopped);
    assert!(out.unwrap().contains("play_state = \"Stopped\"\n"));
}

#[test]
fn pre_wallpapers_are_stored() {
    assert!(pre_sddm_contents(CONFIG, "7").unwrap().contains("pre_sddm_wallpaper_id = \"7\"\n"));
    assert!(pre_wallock_contents(CONFIG, "8").unwrap().contains("pre_wallock_wallpaper_id = \"8\"\n"));
}

#[test]
fn escape_quotes_only_touches_quotes() {
    assert_eq!(escape_quotes_exec("a\"b\"\"c"), "a\\\"b\\\"\\\"c");
    assert_eq!(escape_quotes_exec("plain 名字"), "plain 名字");
    assert_eq!(escape_quotes_exec(""), "");
}

#[test]
fn backup_name() {
    assert_eq!(backup_path("/c/config.json", "2024-01-01"), "/c/config.json.back-2024-01-01");
}

#[test]
fn dollar_in_value_names_a_group() {
    let out = replace_setting("current_wallpaper_id = \"1\"\n", "current_wallpaper_id", "$1").unwrap();
    assert_eq!(out, "current_wallpaper_id = \"1\"\"\n");
}

#[test]
fn stop_is_remembered_for_next_wallpaper() {
    let (_, state) = play_state_contents(CONFIG, None, &ControlAction::Stop);
    assert!(initially_stopped(&Some(state.to_string())));
    let (_, state) = play_state_contents(CONFIG, Some("Stopped".to_string()), &ControlAction::Continue);
    assert!(!initially_stopped(&Some(state.to_string())));
}
