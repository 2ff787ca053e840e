use wallpaperengine_player::check::{
    answer_from_line, build_new_folder, item_step, parse_answer, previous_items, update_folders, Answer, CheckTally,
    FolderUpdate, ItemStep,
};
use wallpaperengine_player::error::{ConfigError, Node};
use wallpaperengine_player::json::{Json, JsonNumber};

fn s(t: &str) -> Json {
    Json::Str(t.to_string())
}

fn obj(fields: Vec<(&str, Json)>) -> Json {
    Json::Object(fields.into_iter().map(|(k, v)| (k.to_string(), v)).collect())
}

fn one() -> Json {
    Json::Number(JsonNumber::PosInt(1))
}

fn folder(title: &str, items: Vec<&str>) -> Json {
    obj(vec![
        ("title", s(title)),
        ("items", Json::Object(items.into_iter().map(|k| (k.to_string(), one())).collect())),
    ])
}

fn strings(v: &[&str]) -> Vec<String> {
    v.iter().map(|x| x.to_string()).collect()
}

fn config(folders: Vec<Json>) -> Json {
    obj(vec![(
        "steamuser",
        obj(vec![("general", obj(vec![("browser", obj(vec![("folders", Json::Array(folders))]))]))]),
    )])
}

fn title_of(j: &Json) -> &str {
    j.get("title").unwrap().as_str().unwrap().as_str()
}

fn items_of(j: &Json) -> Vec<String> {
    let mut k = j.get("items").unwrap().keys().unwrap();
    k.sort();
    k
}

#[test]
fn answers() {
    assert_eq!(parse_answer("y\n"), Some(Answer::Yes));
    assert_eq!(parse_answer("  Y  \n"), Some(Answer::Yes));
    assert_eq!(parse_answer("N\n"), Some(Answer::No));
    assert_eq!(parse_answer("\n"), Some(Answer::Later));
    assert_eq!(parse_answer(""), Some(Answer::Later));
    assert_eq!(parse_answer("yes\n"), None);
}

#[test]
fn steps_before_showing() {
    let picked = strings(&["video"]);
    let skipped = strings(&["web"]);
    assert_eq!(item_step(false, &Some("video".to_string()), &picked, &skipped), ItemStep::Skip);
    assert_eq!(item_step(true, &Some("video".to_string()), &picked, &skipped), ItemStep::Pick);
    assert_eq!(item_step(true, &Some("web".to_string()), &picked, &skipped), ItemStep::Skip);
    assert_eq!(item_step(true, &Some("scene".to_string()), &picked, &skipped), ItemStep::Ask);
    assert_eq!(item_step(true, &None, &picked, &skipped), ItemStep::Ask);
}

#[test]
fn tally_sorts() {
    let mut t = CheckTally::new();
    t.place(&"1".to_string(), ItemStep::Pick);
    t.place(&"2".to_string(), ItemStep::Skip);
    t.place(&"3".to_string(), ItemStep::Ask);
    t.answer(&"4".to_string(), Answer::Yes);
    t.answer(&"5".to_string(), Answer::No);
    t.answer(&"6".to_string(), Answer::Later);
    assert_eq!(t.picked, strings(&["1", "4"]));
    assert_eq!(t.skipped, strings(&["2", "5"]));
    assert_eq!(t.remained, strings(&["6"]));
}

#[test]
fn new_folder_entry() {
    let f = build_new_folder("fav", "_picked", &strings(&["b", "a"]));
    assert_eq!(f.keys().unwrap(), strings(&["title", "subfolders", "items", "type"]));
    assert_eq!(title_of(&f), "fav_picked");
    assert_eq!(f.get("type").unwrap().as_str().unwrap(), "folder");
    assert!(f.get("subfolders").unwrap().as_array().unwrap().is_empty());
    assert_eq!(f.get("items").unwrap().keys().unwrap(), strings(&["b", "a"]));
    assert_eq!(f.get("items").unwrap().get("a").unwrap().as_u64(), Some(1));
}

#[test]
fn previous_folder_items() {
    let folders = vec![folder("fav", vec!["1"]), folder("fav_picked", vec!["2", "3"])];
    assert_eq!(previous_items(&folders, "fav", "_picked").unwrap(), strings(&["2", "3"]));
    assert!(previous_items(&folders, "fav", "_skipped").unwrap().is_empty());
    let broken = vec![obj(vec![("title", s("fav_picked"))])];
    assert_eq!(previous_items(&broken, "fav", "_picked").err(), Some(ConfigError::FolderItemsNotObject));
}

#[test]
fn folders_are_rewritten() {
    let c = config(vec![
        folder("other", vec!["9"]),
        folder("fav", vec!["1", "2", "3", "4"]),
        folder("fav_picked", vec!["0", "1"]),
        folder("more", vec![]),
        folder("fav_skipped", vec!["8"]),
    ]);
    let u = update_folders(&c, "fav", &strings(&["1", "2"]), &strings(&["3"]), &strings(&["4"])).unwrap();
    assert_eq!(u.kept, vec![0, 3]);
    assert_eq!(u.added.len(), 3);
    assert_eq!(title_of(&u.added[0]), "fav_picked");
    assert_eq!(items_of(&u.added[0]), strings(&["0", "1", "2"]));
    assert_eq!(title_of(&u.added[1]), "fav_skipped");
    assert_eq!(items_of(&u.added[1]), strings(&["3", "8"]));
    assert_eq!(title_of(&u.added[2]), "fav");
    assert_eq!(items_of(&u.added[2]), strings(&["4"]));
}

#[test]
fn folder_rewrite_errors() {
    assert_eq!(
        update_folders(&obj(vec![]), "fav", &vec![], &vec![], &vec![]).err(),
        Some(ConfigError::Missing(Node::Steamuser))
    );
    let c = config(vec![obj(vec![("title", s("fav_skipped")), ("items", Json::Array(vec![]))])]);
    assert_eq!(update_folders(&c, "fav", &vec![], &vec![], &vec![]).err(), Some(ConfigError::FolderItemsNotObject));
}

#[test]
fn answer_lines() {
    assert_eq!(answer_from_line("y"), Some(Answer::Yes));
    assert_eq!(answer_from_line("n"), Some(Answer::No));
    assert_eq!(answer_from_line(""), Some(Answer::Later));
    assert_eq!(answer_from_line("Y"), None);
    assert_eq!(answer_from_line(" y"), None);
    assert_eq!(answer_from_line("yes"), None);
}

#[test]
fn answers_trim_unicode_white_space() {
    assert_eq!(parse_answer("\u{3000}Y\t\r\n"), Some(Answer::Yes));
    assert_eq!(parse_answer("\u{85}\u{a0}n\u{2029}"), Some(Answer::No));
    assert_eq!(parse_answer("\u{200b}y"), None);
    assert_eq!(parse_answer(" \u{2028} "), Some(Answer::Later));
}

fn sample_folders() -> Vec<Json> {
    vec![
        folder("other", vec!["9"]),
        folder("fav", vec!["1", "2", "3", "4"]),
        folder("fav_picked", vec!["0", "1"]),
        folder("more", vec![]),
        folder("fav_skipped", vec!["8", "8"]),
    ]
}

fn apply(folders: Vec<Json>, u: FolderUpdate) -> Vec<Json> {
    let mut slots: Vec<Option<Json>> = folders.into_iter().map(Some).collect();
    let mut out: Vec<Json> = u.kept.iter().map(|&i| slots[i].take().unwrap()).collect();
    out.extend(u.added);
    out
}

fn all_items(j: &Json) -> Vec<String> {
    j.get("items").unwrap().keys().unwrap()
}

#[test]
fn folder_rewrite_is_idempotent() {
    let picked = strings(&["1", "2", "0"]);
    let skipped = strings(&["3"]);
    let remained = strings(&["4", "4"]);
    let first = update_folders(&config(sample_folders()), "fav", &picked, &skipped, &remained).unwrap();
    assert_eq!(all_items(&first.added[0]), strings(&["0", "1", "2"]));
    assert_eq!(all_items(&first.added[1]), strings(&["8", "3"]));
    assert_eq!(all_items(&first.added[2]), strings(&["4"]));
    let once = apply(sample_folders(), first);
    let titles: Vec<&str> = once.iter().map(title_of).collect();
    assert_eq!(titles, vec!["other", "more", "fav_picked", "fav_skipped", "fav"]);

    let second = update_folders(&config(once), "fav", &picked, &skipped, &remained).unwrap();
    assert_eq!(second.kept, vec![0, 1]);
    assert_eq!(title_of(&second.added[0]), "fav_picked");
    assert_eq!(all_items(&second.added[0]), strings(&["0", "1", "2"]));
    assert_eq!(title_of(&second.added[1]), "fav_skipped");
    assert_eq!(all_items(&second.added[1]), strings(&["8", "3"]));
    assert_eq!(title_of(&second.added[2]), "fav");
    assert_eq!(all_items(&second.added[2]), strings(&["4"]));
}
