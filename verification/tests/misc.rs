use wallpaperengine_player::engine_config::{pick_random_wallpaper, Folder};
use wallpaperengine_player::history::stats_csv;
use wallpaperengine_player::json::Json;
use wallpaperengine_player::project::{
    get_wallpaper_file, get_wallpaper_name, is_video_type, is_video_wallpaper, wallpaper_type,
};
use wallpaperengine_player::text::{decimal_string, trim};
use wallpaperengine_player::util::extract_last_directory_name;

fn project(fields: Vec<(&str, &str)>) -> Json {
    Json::Object(fields.into_iter().map(|(k, v)| (k.to_string(), Json::Str(v.to_string()))).collect())
}

#[test]
fn last_directory_name() {
    assert_eq!(
        extract_last_directory_name("/home/u/.steam/workshop/content/431960/2843/scene.pkg"),
        Some("2843".to_string())
    );
    assert_eq!(extract_last_directory_name("2843/scene.pkg"), Some("2843".to_string()));
    assert_eq!(extract_last_directory_name("scene.pkg"), None);
    assert_eq!(extract_last_directory_name("/"), None);
    assert_eq!(extract_last_directory_name("/a//b/c.mp4"), Some("b".to_string()));
    assert_eq!(extract_last_directory_name("/a/../c.mp4"), None);
}

#[test]
fn project_fields() {
    let p = project(vec![("type", "Video"), ("file", "clip.mp4"), ("title", "Rain")]);
    assert_eq!(wallpaper_type(&p), Some("video".to_string()));
    assert!(is_video_wallpaper(&p));
    assert_eq!(get_wallpaper_file(&p), "clip.mp4");
    assert_eq!(get_wallpaper_name(&p), "Rain");
    let scene = project(vec![("type", "scene")]);
    assert!(!is_video_wallpaper(&scene));
    assert_eq!(get_wallpaper_file(&scene), "");
    assert_eq!(wallpaper_type(&project(vec![])), None);
}

#[test]
fn csv_export() {
    let rows = vec![
        ("1".to_string(), "Rain".to_string(), 3u32, 1u32, 540u64, 0i64),
        ("2".to_string(), "雪".to_string(), 0u32, 12u32, 7u64, i64::MAX),
    ];
    assert_eq!(
        stats_csv(&rows),
        "壁纸ID,壁纸名称,完整播放次数,中断次数,总播放时长(秒),最后播放时间\n1,Rain,3,1,540,1970-01-01 00:00:00\n2,雪,0,12,7,无效时间\n"
    );
    assert_eq!(stats_csv(&vec![]), "壁纸ID,壁纸名称,完整播放次数,中断次数,总播放时长(秒),最后播放时间\n");
}

#[test]
fn timestamps_are_formatted() {
    let rows = vec![("x".to_string(), "y".to_string(), 1u32, 2u32, 3u64, 1700000000i64)];
    assert!(stats_csv(&rows).ends_with("x,y,1,2,3,2023-11-14 22:13:20\n"));
}

#[test]
fn decimals() {
    assert_eq!(decimal_string(0), "0");
    assert_eq!(decimal_string(10), "10");
    assert_eq!(decimal_string(u64::MAX), u64::MAX.to_string());
}

#[test]
fn random_pick_is_in_folder() {
    let f = Folder { items: vec!["a".to_string(), "b".to_string()], title: "t".to_string() };
    for _ in 0..10 {
        let id = pick_random_wallpaper(&f).unwrap();
        assert!(id == "a" || id == "b");
    }
    let empty = Folder { items: vec![], title: "t".to_string() };
    assert!(pick_random_wallpaper(&empty).is_none());
}

#[test]
fn video_types() {
    assert!(is_video_type("video"));
    assert!(!is_video_type("Video"));
    assert!(!is_video_type("scene"));
    assert!(!is_video_type(""));
}

#[test]
fn trimming() {
    assert_eq!(trim("\u{85}a b\u{2029}"), "a b");
    assert_eq!(trim("  \t"), "");
    assert_eq!(trim("\u{200b}x\u{200b}"), "\u{200b}x\u{200b}");
    assert_eq!(trim("x"), "x");
}
