use wallpaperengine_player::control::ControlAction;
use wallpaperengine_player::engine_config::Playlist;
use wallpaperengine_player::play::{
    initially_stopped, show_time, wallpaper_changed, HistoryRecord, PlayPhase, PlayQueue, ShowTime,
    WallpaperSwitchMode,
};

fn queue(ids: &[&str]) -> PlayQueue {
    PlayQueue::new(ids.iter().map(|x| x.to_string()).collect())
}

fn contents(q: &PlayQueue) -> Vec<&str> {
    q.queue.iter().map(|x| x.as_str()).collect()
}

/// Starts the next wallpaper as the player does: takes it and keeps it at the back.
fn start(q: &mut PlayQueue) -> String {
    let id = q.take_next().unwrap();
    q.keep(id.clone());
    id
}

#[test]
fn queue_cycles() {
    let mut q = queue(&["a", "b", "c"]);
    assert_eq!(start(&mut q), "a");
    assert_eq!(contents(&q), vec!["b", "c", "a"]);
    assert_eq!(start(&mut q), "b");
    let mut empty = queue(&[]);
    assert!(empty.take_next().is_none());
}

#[test]
fn reload_replays_current() {
    let mut q = queue(&["a", "b", "c"]);
    start(&mut q);
    let step = q.after_wait(false, Some(ControlAction::Reload));
    assert_eq!(step.records, vec![HistoryRecord::Complete]);
    assert_eq!(step.phase, PlayPhase::Done);
    assert_eq!(start(&mut q), "a");
}

#[test]
fn prev_goes_back() {
    let mut q = queue(&["a", "b", "c"]);
    start(&mut q);
    start(&mut q);
    let step = q.after_wait(false, Some(ControlAction::Prev));
    assert_eq!(step.records, vec![HistoryRecord::Change, HistoryRecord::Complete]);
    assert_eq!(contents(&q), vec!["a", "b", "c"]);
    assert_eq!(start(&mut q), "a");
    assert_eq!(start(&mut q), "b");
}

#[test]
fn prev_with_one_wallpaper() {
    let mut q = queue(&["a"]);
    start(&mut q);
    q.after_wait(false, Some(ControlAction::Prev));
    assert_eq!(contents(&q), vec!["a"]);
}

#[test]
fn next_and_continue() {
    let mut q = queue(&["a", "b"]);
    start(&mut q);
    let step = q.after_wait(true, Some(ControlAction::Next));
    assert_eq!(step.records, vec![HistoryRecord::Change]);
    assert_eq!(step.phase, PlayPhase::Done);
    assert_eq!(contents(&q), vec!["b", "a"]);
    let step = q.after_wait(true, Some(ControlAction::Continue));
    assert!(step.records.is_empty());
    assert_eq!(step.phase, PlayPhase::Done);
}

#[test]
fn time_up() {
    let mut q = queue(&["a", "b"]);
    start(&mut q);
    let step = q.after_wait(false, None);
    assert_eq!(step.records, vec![HistoryRecord::Complete]);
    assert_eq!(step.phase, PlayPhase::Done);
    let step = q.after_wait(true, None);
    assert!(step.records.is_empty());
    assert_eq!(step.phase, PlayPhase::Paused);
    let step = q.after_wait(false, Some(ControlAction::Stop));
    assert!(step.records.is_empty());
    assert_eq!(step.phase, PlayPhase::Paused);
}

#[test]
fn paused_player() {
    let mut q = queue(&["a", "b", "c"]);
    start(&mut q);
    let step = q.while_paused(Some(ControlAction::Stop));
    assert_eq!(step.phase, PlayPhase::Paused);
    let step = q.while_paused(None);
    assert_eq!(step.phase, PlayPhase::Paused);
    let step = q.while_paused(Some(ControlAction::Reload));
    assert_eq!(step.phase, PlayPhase::Paused);
    assert_eq!(contents(&q), vec!["a", "b", "c"]);
    let step = q.while_paused(Some(ControlAction::Continue));
    assert_eq!(step.records, vec![HistoryRecord::Complete]);
    assert_eq!(step.phase, PlayPhase::Done);
    let step = q.while_paused(Some(ControlAction::Next));
    assert_eq!(step.records, vec![HistoryRecord::Change]);
    let step = q.while_paused(Some(ControlAction::Prev));
    assert_eq!(step.records, vec![HistoryRecord::Change]);
    assert_eq!(step.phase, PlayPhase::Done);
    assert_eq!(contents(&q), vec!["b", "c", "a"]);
}

#[test]
fn show_times() {
    assert_eq!(show_time(WallpaperSwitchMode::Videosequence, true, 5), ShowTime::VideoLength);
    assert_eq!(show_time(WallpaperSwitchMode::Videosequence, false, 5), ShowTime::Seconds(300));
    assert_eq!(show_time(WallpaperSwitchMode::Timer, true, 2), ShowTime::Seconds(120));
}

#[test]
fn switch_mode_of_playlist() {
    let mut p = Playlist {
        wallpaper_ids: vec![],
        mode: "timer".to_string(),
        order: "sequential".to_string(),
        delay: 1,
        videosequence: true,
        beginfirst: false,
    };
    assert_eq!(WallpaperSwitchMode::new(&p), WallpaperSwitchMode::Videosequence);
    p.videosequence = false;
    assert_eq!(WallpaperSwitchMode::new(&p), WallpaperSwitchMode::Timer);
}

#[test]
fn stored_state() {
    assert!(initially_stopped(&Some("Stopped".to_string())));
    assert!(!initially_stopped(&Some("Playing".to_string())));
    assert!(!initially_stopped(&None));
}

#[test]
fn profile_change() {
    assert!(wallpaper_changed("1", "2"));
    assert!(!wallpaper_changed("1", "1"));
}
