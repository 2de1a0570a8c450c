use bvoice::tray::{set_state, state_with_age, State, TrayStatus};

#[test]
fn state_names() {
    assert_eq!(State::Idle.as_str(), "idle");
    assert_eq!(State::Recording.as_str(), "recording");
    assert_eq!(State::Transcribing.as_str(), "transcribing");
}

#[test]
fn nothing_before_first_state() {
    let t = TrayStatus::new();
    assert_eq!(state_with_age(&t, 123), None);
}

#[test]
fn state_reads_back_with_age() {
    let mut t = TrayStatus::new();
    set_state(&mut t, State::Recording, 1_000);
    assert_eq!(state_with_age(&t, 1_000), Some((State::Recording, 0)));
    assert_eq!(state_with_age(&t, 5_500), Some((State::Recording, 4_500)));
    // a clock reading before the stamp gives age zero
    assert_eq!(state_with_age(&t, 10), Some((State::Recording, 0)));
    set_state(&mut t, State::Idle, 6_000);
    assert_eq!(state_with_age(&t, 7_000), Some((State::Idle, 1_000)));
}
