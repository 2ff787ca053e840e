use wallpaperengine_player::control::{
    control_message, message_string, received_action, ControlAction, Message, PlayState, MESSAGE_TEXT_LEN,
};

const ALL: [ControlAction; 5] = [
    ControlAction::Next,
    ControlAction::Prev,
    ControlAction::Reload,
    ControlAction::Stop,
    ControlAction::Continue,
];

#[test]
fn names_read_back() {
    for a in ALL {
        assert_eq!(ControlAction::form(&a.to_string()), Some(a));
    }
    assert_eq!(ControlAction::Reload.to_string(), "Reload");
    assert_eq!(ControlAction::form("next"), None);
    assert_eq!(ControlAction::form("Next "), None);
    assert_eq!(PlayState::from_str("Stopped"), Some(PlayState::Stopped));
    assert_eq!(PlayState::from_str(&PlayState::Playing.to_string()), Some(PlayState::Playing));
    assert_eq!(PlayState::from_str("stopped"), None);
}

#[test]
fn to_state_follows_action() {
    let stopped = Some("Stopped".to_string());
    assert_eq!(ControlAction::to_state(stopped.clone(), &ControlAction::Next), PlayState::Stopped);
    assert_eq!(ControlAction::to_state(stopped.clone(), &ControlAction::Continue), PlayState::Playing);
    assert_eq!(ControlAction::to_state(Some("Playing".to_string()), &ControlAction::Stop), PlayState::Stopped);
    assert_eq!(ControlAction::to_state(None, &ControlAction::Reload), PlayState::Playing);
    assert_eq!(ControlAction::to_state(Some("garbage".to_string()), &ControlAction::Prev), PlayState::Playing);
}

#[test]
fn is_stopped_reads_name() {
    assert!(PlayState::is_stopped("Stopped"));
    assert!(!PlayState::is_stopped("Playing"));
    assert!(!PlayState::is_stopped("stopped"));
}

#[test]
fn flags_choose_first() {
    assert_eq!(ControlAction::from_flags(false, true, true, false, false), Some(ControlAction::Prev));
    assert_eq!(ControlAction::from_flags(false, false, false, false, true), Some(ControlAction::Continue));
    assert_eq!(ControlAction::from_flags(false, false, false, false, false), None);
}

#[test]
fn messages_round_trip() {
    for a in ALL {
        let (msg, len) = control_message(a.name()).unwrap();
        assert_eq!(msg.mtype, 1);
        assert_eq!(len, a.name().len() + 1);
        assert_eq!(received_action(&msg), Some(a));
    }
    let (msg, len) = control_message("héllo").unwrap();
    assert_eq!(len, "héllo".len() + 1);
    assert_eq!(message_string(&msg), "héllo");
    assert_eq!(received_action(&msg), None);
}

#[test]
fn message_with_nul_is_refused() {
    assert!(control_message("Ne\0xt").is_none());
}

#[test]
fn long_message_is_refused() {
    assert!(control_message(&"a".repeat(300)).is_none());
    assert!(control_message(&"a".repeat(256)).is_none());
    let (msg, len) = control_message(&"a".repeat(255)).unwrap();
    assert_eq!(len, MESSAGE_TEXT_LEN);
    assert!(msg.mtext[..255].iter().all(|b| *b == b'a'));
    assert_eq!(msg.mtext[255], 0);
    assert_eq!(message_string(&msg), "a".repeat(255));
}

#[test]
fn invalid_utf8_is_replaced() {
    let mut mtext = [0u8; 256];
    mtext[0] = b'N';
    mtext[1] = 0xff;
    let msg = Message { mtype: 1, mtext };
    assert_eq!(message_string(&msg), "N\u{fffd}");
}
