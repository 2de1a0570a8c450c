use bvoice::hotkey::{handle_key, is_ctrl, is_meta, reset, HotkeyEvent, HotkeyTracker, Key, KeyAction, State};

fn feed(t: &mut HotkeyTracker, actions: &[KeyAction]) -> Vec<HotkeyEvent> {
    let mut out = Vec::new();
    for a in actions {
        if let Some(e) = handle_key(t, *a) {
            out.push(e);
        }
    }
    out
}

#[test]
fn ctrl_then_meta_arms() {
    let mut t = HotkeyTracker::new();
    assert_eq!(handle_key(&mut t, KeyAction::Press(Key::ControlLeft)), None);
    assert_eq!(handle_key(&mut t, KeyAction::Press(Key::MetaLeft)), Some(HotkeyEvent::Armed));
    assert_eq!(t.state, State::Armed);
    assert!(t.ctrl_held && t.meta_held);
}

#[test]
fn meta_then_ctrl_arms() {
    let mut t = HotkeyTracker::new();
    assert_eq!(handle_key(&mut t, KeyAction::Press(Key::MetaRight)), None);
    assert_eq!(handle_key(&mut t, KeyAction::Press(Key::ControlRight)), Some(HotkeyEvent::Armed));
}

#[test]
fn releasing_either_key_releases() {
    let mut t = HotkeyTracker::new();
    feed(&mut t, &[KeyAction::Press(Key::ControlLeft), KeyAction::Press(Key::MetaLeft)]);
    assert_eq!(handle_key(&mut t, KeyAction::Release(Key::MetaLeft)), Some(HotkeyEvent::Released));
    assert_eq!(t.state, State::Idle);
    assert!(t.ctrl_held);
    assert!(!t.meta_held);
    // letting go of the other key reports nothing more
    assert_eq!(handle_key(&mut t, KeyAction::Release(Key::ControlLeft)), None);
}

#[test]
fn other_keys_are_ignored() {
    let mut t = HotkeyTracker::new();
    feed(&mut t, &[KeyAction::Press(Key::ControlLeft), KeyAction::Press(Key::MetaLeft)]);
    let before = t;
    assert_eq!(handle_key(&mut t, KeyAction::Press(Key::Other)), None);
    assert_eq!(handle_key(&mut t, KeyAction::Release(Key::Other)), None);
    assert_eq!(t, before);
}

#[test]
fn repeated_press_while_armed_reports_once() {
    let mut t = HotkeyTracker::new();
    let evs = feed(
        &mut t,
        &[
            KeyAction::Press(Key::ControlLeft),
            KeyAction::Press(Key::MetaLeft),
            KeyAction::Press(Key::MetaLeft),
            KeyAction::Press(Key::ControlRight),
        ],
    );
    assert_eq!(evs, vec![HotkeyEvent::Armed]);
}

#[test]
fn reports_alternate_over_a_long_run() {
    let mut t = HotkeyTracker::new();
    let evs = feed(
        &mut t,
        &[
            KeyAction::Press(Key::ControlLeft),
            KeyAction::Press(Key::MetaLeft),
            KeyAction::Release(Key::ControlLeft),
            KeyAction::Release(Key::MetaLeft),
            KeyAction::Release(Key::MetaLeft),
            KeyAction::Press(Key::MetaRight),
            KeyAction::Press(Key::ControlRight),
            KeyAction::Press(Key::Other),
            KeyAction::Release(Key::ControlRight),
        ],
    );
    assert_eq!(evs, vec![HotkeyEvent::Armed, HotkeyEvent::Released, HotkeyEvent::Armed, HotkeyEvent::Released]);
    assert_eq!(t.state, State::Idle);
}

#[test]
fn reset_forgets_everything() {
    let mut t = HotkeyTracker::new();
    feed(&mut t, &[KeyAction::Press(Key::ControlLeft), KeyAction::Press(Key::MetaLeft)]);
    reset(&mut t);
    assert_eq!(t, HotkeyTracker { ctrl_held: false, meta_held: false, state: State::Idle });
    // after a reset the next release reports nothing
    assert_eq!(handle_key(&mut t, KeyAction::Release(Key::MetaLeft)), None);
}

#[test]
fn key_classes() {
    assert!(is_ctrl(Key::ControlLeft) && is_ctrl(Key::ControlRight));
    assert!(!is_ctrl(Key::MetaLeft) && !is_ctrl(Key::Other));
    assert!(is_meta(Key::MetaLeft) && is_meta(Key::MetaRight));
    assert!(!is_meta(Key::ControlLeft) && !is_meta(Key::Other));
}
