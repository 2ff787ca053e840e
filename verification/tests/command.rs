use wallpaperengine_player::command::{
    build_command, log_file, screen_log_path, screen_root_command, LinuxWallpaperengineConfig, PlayCommandConfig,
};

fn base() -> PlayCommandConfig {
    PlayCommandConfig {
        base_command: "linux-wallpaperengine".to_string(),
        log_file: None,
        silent: Some(false),
        volume: Some(30),
        noautomute: Some(true),
        no_audio_processing: None,
        screen_root: vec!["HDMI-1".to_string()],
        window: None,
        fps: None,
        assets_dir: None,
        screenshot: None,
        list_propertites: None,
        set_property: None,
        no_fullscreen_pause: None,
        disable_mouse: None,
        scaling: None,
        clamping: None,
    }
}

#[test]
fn minimal_command() {
    let c = build_command(&base(), "HDMI-1", "12345");
    assert_eq!(c.program, "linux-wallpaperengine");
    assert_eq!(c.args, vec!["--screen-root", "HDMI-1", "--silent", "12345"]);
}

#[test]
fn full_command() {
    let mut config = base();
    config.base_command = "/usr/bin/lwe".to_string();
    config.scaling = Some("fill".to_string());
    config.clamping = Some("clamp".to_string());
    config.window = Some(true);
    config.fps = Some(120);
    config.assets_dir = Some("/assets".to_string());
    config.screenshot = Some(false);
    config.list_propertites = Some(true);
    config.no_fullscreen_pause = Some(true);
    config.disable_mouse = Some(true);
    let c = build_command(&config, "DP-2", "777");
    assert_eq!(c.program, "/usr/bin/lwe");
    assert_eq!(
        c.args,
        vec![
            "--scaling", "fill", "--clamping", "clamp", "--screen-root", "DP-2", "--silent", "--window", "--fps",
            "120", "--assets-dir", "/assets", "--list-propertites", "--no-fullscreen-pause", "--disable-mouse", "777",
        ]
    );
}

#[test]
fn fps_zero_is_written() {
    let mut config = base();
    config.fps = Some(0);
    let c = build_command(&config, "A", "1");
    assert_eq!(c.args, vec!["--screen-root", "A", "--silent", "--fps", "0", "1"]);
}

#[test]
fn log_file_default() {
    assert_eq!(log_file(&base()), "./linux_wallpaperengine.log");
    let mut config = base();
    config.log_file = Some("/tmp/x.log".to_string());
    assert_eq!(log_file(&config), "/tmp/x.log");
}

fn screens() -> LinuxWallpaperengineConfig {
    LinuxWallpaperengineConfig {
        screen_root: Some(vec!["A".to_string(), "B".to_string()]),
        scaling: None,
        clamping: None,
        silent: false,
        volume: Some(50),
        noautomute: true,
        window: false,
        fps: Some(30),
        assets_dir: None,
        screenshot: false,
        list_properties: false,
        set_property: Some(vec![("rate".to_string(), "2".to_string())]),
        no_fullscreen_pause: false,
        disable_mouse: true,
    }
}

#[test]
fn first_screen_has_sound() {
    let c = screen_root_command(&screens(), "A", 0, "9");
    assert_eq!(c.program, "linux-wallpaperengine");
    assert_eq!(
        c.args,
        vec![
            "--screen-root", "A", "--volume", "50", "--noautomute", "--no-audio-processing", "--fps", "30",
            "--set-property", "rate=2", "--disable-mouse", "9",
        ]
    );
}

#[test]
fn other_screens_are_silent() {
    let c = screen_root_command(&screens(), "B", 1, "9");
    assert_eq!(
        c.args,
        vec!["--screen-root", "B", "--silent", "--fps", "30", "--set-property", "rate=2", "--disable-mouse", "9"]
    );
}

#[test]
fn screen_log_name() {
    assert_eq!(screen_log_path("/tmp/lwe.log", "HDMI-1"), "/tmp/lwe.log_in_HDMI-1");
}
