use bvoice::config::{default_beam_size, default_model, default_use_vad, needs_model_reload};
use bvoice::inject::{typing_args, TYPING_PROGRAM};
use bvoice::pipeline::{is_stuck, respond, Command, Event};
use bvoice::tray::State;

fn show(s: State) -> String {
    format!("{:?}", Command::ShowState(s))
}

fn dbg(cmds: &[Command]) -> Vec<String> {
    cmds.iter().map(|c| format!("{:?}", c)).collect()
}

#[test]
fn config_defaults() {
    assert_eq!(default_beam_size(), 2);
    assert!(!default_use_vad());
    assert_eq!(default_model(), "base.en");
}

#[test]
fn reload_only_on_model_change() {
    assert!(!needs_model_reload(&"base.en".to_string(), &"base.en".to_string()));
    assert!(needs_model_reload(&"base.en".to_string(), &"small.en".to_string()));
}

#[test]
fn typing_arguments() {
    assert_eq!(typing_args(""), None);
    assert_eq!(TYPING_PROGRAM, "xdotool");
    assert_eq!(
        typing_args("hello there").unwrap(),
        vec!["type", "--delay", "0", "--", "hello there"]
    );
    assert_eq!(typing_args("-x").unwrap()[4], "-x");
}

#[test]
fn arming_needs_a_model() {
    assert!(respond(Event::Armed { model_ready: false }).is_empty());
    assert_eq!(dbg(&respond(Event::Armed { model_ready: true })), vec!["StartRecording"]);
    assert_eq!(dbg(&respond(Event::RecordingStarted { ok: true })), vec![show(State::Recording)]);
    assert!(respond(Event::RecordingStarted { ok: false }).is_empty());
}

#[test]
fn release_cycle() {
    assert_eq!(dbg(&respond(Event::Released)), vec!["StopRecording"]);
    let nothing = Event::RecordingStopped { captured: false, model_ready: true, use_vad: true, beam_size: 2 };
    assert_eq!(dbg(&respond(nothing)), vec![show(State::Idle)]);
    let no_model = Event::RecordingStopped { captured: true, model_ready: false, use_vad: true, beam_size: 2 };
    assert_eq!(dbg(&respond(no_model)), vec![show(State::Idle)]);
    let go = Event::RecordingStopped { captured: true, model_ready: true, use_vad: true, beam_size: 3 };
    assert_eq!(
        dbg(&respond(go)),
        vec![show(State::Transcribing), format!("{:?}", Command::Prepare { trim_silence: true, beam_size: 3 })]
    );
    assert_eq!(dbg(&respond(Event::Prepared { has_samples: false, beam_size: 3 })), vec![show(State::Idle)]);
    assert_eq!(
        dbg(&respond(Event::Prepared { has_samples: true, beam_size: 3 })),
        vec![format!("{:?}", Command::Transcribe { beam_size: 3 })]
    );
    assert_eq!(
        dbg(&respond(Event::Transcribed { text: Some("hi".to_string()) })),
        vec![format!("{:?}", Command::TypeText("hi".to_string())), show(State::Idle)]
    );
    assert_eq!(dbg(&respond(Event::Transcribed { text: None })), vec![show(State::Idle)]);
}

#[test]
fn watchdog_limits() {
    let s = 1_000_000_000u64;
    assert!(!is_stuck(State::Recording, 60 * s));
    assert!(is_stuck(State::Recording, 60 * s + 1));
    assert!(!is_stuck(State::Transcribing, 45 * s));
    assert!(is_stuck(State::Transcribing, 45 * s + 1));
    assert!(!is_stuck(State::Idle, u64::MAX));
    assert_eq!(
        dbg(&respond(Event::WatchdogTick { status: Some((State::Recording, 61 * s)) })),
        vec!["StopRecording".to_string(), "ResetHotkey".to_string(), show(State::Idle)]
    );
    assert!(respond(Event::WatchdogTick { status: Some((State::Transcribing, 10 * s)) }).is_empty());
    assert!(respond(Event::WatchdogTick { status: None }).is_empty());
}

#[test]
fn file_locations() {
    assert_eq!(bvoice::config::config_file_components(), vec!["bvoice", "config.toml"]);
    assert_eq!(bvoice::model::model_file_components("base.en-q5_1"), vec!["bvoice", "models", "ggml-base.en-q5_1.bin"]);
    assert_eq!(bvoice::config::FALLBACK_DIR, ".");
}
