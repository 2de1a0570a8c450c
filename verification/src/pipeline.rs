//! The decisions of a push-to-talk cycle: what the application does when
//! the trigger fires, when recording ends, when the recording has been
//! prepared and transcribed, and when the watchdog finds the tray stuck.
//! The application performs each command and reports the outcome as the
//! next event.
use vstd::prelude::*;
use crate::tray::State;

verus! {

/// Longest time the tray may show `Recording` (60 s, in nanoseconds).
pub const RECORDING_LIMIT_NS: u64 = 60_000_000_000;

/// Longest time the tray may show `Transcribing` (45 s, in nanoseconds).
pub const TRANSCRIBING_LIMIT_NS: u64 = 45_000_000_000;

/// Interval between two watchdog checks (2 s, in nanoseconds).
pub const WATCHDOG_PERIOD_NS: u64 = 2_000_000_000;

/// What happened, as the application reports it.
#[derive(Debug)]
pub enum Event {
    /// The trigger armed; whether a model is loaded.
    Armed { model_ready: bool },
    /// The attempt to start recording succeeded or failed.
    RecordingStarted { ok: bool },
    /// The trigger was released.
    Released,
    /// Recording stopped: whether samples were captured, whether a model is
    /// loaded, and the settings read at that moment.
    RecordingStopped { captured: bool, model_ready: bool, use_vad: bool, beam_size: u32 },
    /// The samples are ready for the model; whether any are left.
    Prepared { has_samples: bool, beam_size: u32 },
    /// The model finished: the text, or `None` when it failed.
    Transcribed { text: Option<String> },
    /// A watchdog check: the tray state and for how long it has held it.
    WatchdogTick { status: Option<(State, u64)> },
}

/// What the application is told to do.
#[derive(Debug)]
pub enum Command {
    /// Start capturing from the selected input.
    StartRecording,
    /// Stop capturing and hand over the samples.
    StopRecording,
    /// Show this state in the tray.
    ShowState(State),
    /// Prepare the samples; trim silence first when `trim_silence`.
    Prepare { trim_silence: bool, beam_size: u32 },
    /// Run the model with this beam width.
    Transcribe { beam_size: u32 },
    /// Type the text at the cursor.
    TypeText(String),
    /// Forget the trigger's held keys and disarm it.
    ResetHotkey,
}

/// Whether the tray has held `state` for too long: `Recording` for more
/// than 60 s or `Transcribing` for more than 45 s.
pub open spec fn spec_is_stuck(state: State, age_ns: u64) -> bool {
    match state {
        State::Recording => age_ns > RECORDING_LIMIT_NS,
        State::Transcribing => age_ns > TRANSCRIBING_LIMIT_NS,
        State::Idle => false,
    }
}

/// Whether the tray has held `state` for too long (see `spec_is_stuck`).
pub fn is_stuck(state: State, age_ns: u64) -> (b: bool)
    ensures
        b == spec_is_stuck(state, age_ns),
{
    match state {
        State::Recording => age_ns > RECORDING_LIMIT_NS,
        State::Transcribing => age_ns > TRANSCRIBING_LIMIT_NS,
        State::Idle => false,
    }
}

/// The commands for an event, in the order they are carried out.
///
/// - Armed: start recording if a model is loaded; otherwise ignore the hold.
/// - Recording started: show `Recording`; nothing if it failed.
/// - Released: stop recording.
/// - Recording stopped: back to `Idle` when nothing was captured or no model
///   is loaded; otherwise show `Transcribing` and prepare the samples.
/// - Prepared: back to `Idle` when no samples are left; otherwise transcribe.
/// - Transcribed: type the text if there is one, then back to `Idle`.
/// - Watchdog: when the tray is stuck, stop recording, reset the trigger and
///   go back to `Idle`.
pub open spec fn response(e: Event) -> Seq<Command> {
    match e {
        Event::Armed { model_ready } => if model_ready {
            seq![Command::StartRecording]
        } else {
            seq![]
        },
        Event::RecordingStarted { ok } => if ok {
            seq![Command::ShowState(State::Recording)]
        } else {
            seq![]
        },
        Event::Released => seq![Command::StopRecording],
        Event::RecordingStopped { captured, model_ready, use_vad, beam_size } => if captured
            && model_ready {
            seq![
                Command::ShowState(State::Transcribing),
                Command::Prepare { trim_silence: use_vad, beam_size },
            ]
        } else {
            seq![Command::ShowState(State::Idle)]
        },
        Event::Prepared { has_samples, beam_size } => if has_samples {
            seq![Command::Transcribe { beam_size }]
        } else {
            seq![Command::ShowState(State::Idle)]
        },
        Event::Transcribed { text } => match text {
            Some(t) => seq![Command::TypeText(t), Command::ShowState(State::Idle)],
            None => seq![Command::ShowState(State::Idle)],
        },
        Event::WatchdogTick { status } => match status {
            Some((state, age)) => if spec_is_stuck(state, age) {
                seq![Command::StopRecording, Command::ResetHotkey, Command::ShowState(State::Idle)]
            } else {
                seq![]
            },
            None => seq![],
        },
    }
}

/// The commands for an event (see `response`).
pub fn respond(e: Event) -> (cmds: Vec<Command>)
    ensures
        cmds@ == response(e),
        match e {
            Event::RecordingStopped { captured, model_ready, use_vad, beam_size } => captured
                && model_ready ==> cmds@.contains(Command::Prepare { trim_silence: use_vad, beam_size }),
            _ => true,
        },
        forall|i: int| 0 <= i < cmds@.len() ==> passes_through(e, #[trigger] cmds@[i]),
{
    let mut cmds: Vec<Command> = Vec::new();
    match e {
        Event::Armed { model_ready } => {
            if model_ready {
                cmds.push(Command::StartRecording);
            }
        },
        Event::RecordingStarted { ok } => {
            if ok {
                cmds.push(Command::ShowState(State::Recording));
            }
        },
        Event::Released => {
            cmds.push(Command::StopRecording);
        },
        Event::RecordingStopped { captured, model_ready, use_vad, beam_size } => {
            if captured && model_ready {
                cmds.push(Command::ShowState(State::Transcribing));
                cmds.push(Command::Prepare { trim_silence: use_vad, beam_size });
            } else {
                cmds.push(Command::ShowState(State::Idle));
            }
        },
        Event::Prepared { has_samples, beam_size } => {
            if has_samples {
                cmds.push(Command::Transcribe { beam_size });
            } else {
                cmds.push(Command::ShowState(State::Idle));
            }
        },
        Event::Transcribed { text } => {
            match text {
                Some(t) => {
                    cmds.push(Command::TypeText(t));
                },
                None => {},
            }
            cmds.push(Command::ShowState(State::Idle));
        },
        Event::WatchdogTick { status } => {
            match status {
                Some((state, age)) => {
                    if is_stuck(state, age) {
                        cmds.push(Command::StopRecording);
                        cmds.push(Command::ResetHotkey);
                        cmds.push(Command::ShowState(State::Idle));
                    }
                },
                None => {},
            }
        },
    }
    proof {
        assert(cmds@ =~= response(e));
    }
    cmds
}

/// The values that a command carries come from the event: the trimming
/// choice and beam width of `Prepare` from the stopped recording's settings,
/// the beam width of `Transcribe` from the prepared event, and the typed
/// text from the transcription.
pub open spec fn passes_through(e: Event, c: Command) -> bool {
    &&& (c matches Command::Prepare { trim_silence, beam_size } ==> (e matches Event::RecordingStopped {
        use_vad: u,
        beam_size: b,
        ..
    } && trim_silence == u && beam_size == b))
    &&& (c matches Command::Transcribe { beam_size } ==> (e matches Event::Prepared {
        beam_size: b,
        has_samples,
    } && has_samples && beam_size == b))
    &&& (c matches Command::TypeText(t) ==> e == Event::Transcribed { text: Some(t) })
}

/// Every value a command carries is the one the event gave: silence is
/// trimmed exactly when the settings ask for it, the configured beam width
/// reaches the model unchanged, and the model's text is typed unchanged.
pub proof fn lemma_commands_carry_event_values(e: Event)
    ensures
        forall|i: int| 0 <= i < response(e).len() ==> passes_through(e, #[trigger] response(e)[i]),
{
}

/// A recording with samples and a model is prepared with the user's own
/// trimming choice and beam width.
pub proof fn lemma_prepare_follows_settings(use_vad: bool, beam_size: u32)
    ensures
        response(Event::RecordingStopped { captured: true, model_ready: true, use_vad, beam_size }).contains(
            Command::Prepare { trim_silence: use_vad, beam_size },
        ),
        !response(Event::RecordingStopped { captured: true, model_ready: true, use_vad, beam_size }).contains(
            Command::Prepare { trim_silence: !use_vad, beam_size },
        ),
{
    let r = response(Event::RecordingStopped { captured: true, model_ready: true, use_vad, beam_size });
    lemma_commands_carry_event_values(Event::RecordingStopped { captured: true, model_ready: true, use_vad, beam_size });
    assert(r[1] == Command::Prepare { trim_silence: use_vad, beam_size });
}

/// Recording is started only when the trigger arms while a model is loaded,
/// and then always.
pub proof fn lemma_recording_needs_model(e: Event)
    ensures
        response(e).contains(Command::StartRecording) <==> e == (Event::Armed { model_ready: true }),
{
    if e == (Event::Armed { model_ready: true }) {
        assert(response(e)[0] == Command::StartRecording);
    }
}

/// `Transcribing` is shown only once a recording stopped with samples
/// captured and a model loaded.
pub proof fn lemma_transcribing_needs_samples_and_model(e: Event)
    ensures
        response(e).contains(Command::ShowState(State::Transcribing)) ==> (e matches Event::RecordingStopped {
            captured,
            model_ready,
            ..
        } && captured && model_ready),
{
}

/// Whenever a step shows `Idle`, that is its last command: nothing is left
/// running behind an idle tray.
pub proof fn lemma_idle_comes_last(e: Event)
    ensures
        forall|i: int|
            0 <= i < response(e).len() && response(e)[i] == Command::ShowState(State::Idle) ==> i
                == response(e).len() - 1,
{
}

/// Every way a cycle can end returns the tray to `Idle`: nothing captured,
/// no model, no samples left after trimming, a finished or failed
/// transcription, and a stuck tray found by the watchdog.
pub proof fn lemma_cycles_end_idle(e: Event)
    ensures
        (e matches Event::RecordingStopped { captured, model_ready, .. } && !(captured && model_ready))
            ==> response(e).last() == Command::ShowState(State::Idle),
        (e matches Event::Prepared { has_samples, .. } && !has_samples) ==> response(e).last()
            == Command::ShowState(State::Idle),
        e is Transcribed ==> response(e).last() == Command::ShowState(State::Idle),
        (e matches Event::WatchdogTick { status: Some((state, age)) } && spec_is_stuck(state, age))
            ==> response(e) == seq![Command::StopRecording, Command::ResetHotkey, Command::ShowState(State::Idle)],
{
}

/// The watchdog leaves an idle tray, and a state held within its limit,
/// alone.
pub proof fn lemma_watchdog_spares_live_states(state: State, age: u64)
    requires
        state == State::Idle || (state == State::Recording && age <= RECORDING_LIMIT_NS) || (state
            == State::Transcribing && age <= TRANSCRIBING_LIMIT_NS),
    ensures
        response(Event::WatchdogTick { status: Some((state, age)) }).len() == 0,
{
}

} // verus!
