//! The push-to-talk trigger: holding Ctrl and the Windows (Meta) key together
//! arms recording, and letting go of either one releases it.
use vstd::prelude::*;

verus! {

/// The keys that the trigger tells apart; every other key is `Other`.
#[derive(Clone, Copy, Debug, PartialEq, Eq)]
pub enum Key {
    ControlLeft,
    ControlRight,
    MetaLeft,
    MetaRight,
    Other,
}

/// A keyboard event as the listener sees it.
#[derive(Clone, Copy, Debug, PartialEq, Eq)]
pub enum KeyAction {
    Press(Key),
    Release(Key),
}

/// Whether the trigger is waiting (`Idle`) or has fired (`Armed`).
#[derive(Clone, Copy, Debug, PartialEq, Eq)]
pub enum State {
    Idle,
    Armed,
}

/// What the trigger reports to the application.
#[derive(Clone, Copy, Debug, PartialEq, Eq)]
pub enum HotkeyEvent {
    /// Ctrl and Meta are both held: start recording.
    Armed,
    /// One of them was let go after arming: stop recording.
    Released,
}

/// The trigger's memory: which modifier keys are held, and its state.
#[derive(Clone, Copy, Debug, PartialEq, Eq)]
pub struct HotkeyTracker {
    pub ctrl_held: bool,
    pub meta_held: bool,
    pub state: State,
}

/// Whether `k` is one of the two Ctrl keys.
pub open spec fn spec_is_ctrl(k: Key) -> bool {
    k == Key::ControlLeft || k == Key::ControlRight
}

/// Whether `k` is one of the two Meta (Windows) keys.
pub open spec fn spec_is_meta(k: Key) -> bool {
    k == Key::MetaLeft || k == Key::MetaRight
}

/// Whether `k` is one of the two Ctrl keys.
pub fn is_ctrl(k: Key) -> (b: bool)
    ensures
        b == spec_is_ctrl(k),
{
    match k {
        Key::ControlLeft => true,
        Key::ControlRight => true,
        _ => false,
    }
}

/// Whether `k` is one of the two Meta (Windows) keys.
pub fn is_meta(k: Key) -> (b: bool)
    ensures
        b == spec_is_meta(k),
{
    match k {
        Key::MetaLeft => true,
        Key::MetaRight => true,
        _ => false,
    }
}

/// The tracker at start-up and after a reset: nothing held, not armed.
pub open spec fn idle_tracker() -> HotkeyTracker {
    HotkeyTracker { ctrl_held: false, meta_held: false, state: State::Idle }
}

/// One keyboard event: the tracker afterwards and what is reported.
///
/// A press or release of any key other than Ctrl or Meta changes nothing.
/// A press records the key as held; if Ctrl and Meta are then both held and
/// the trigger is idle, it arms and reports `Armed`. A release records the
/// key as let go; if the trigger is armed, it goes idle and reports
/// `Released`.
pub open spec fn step(t: HotkeyTracker, a: KeyAction) -> (HotkeyTracker, Option<HotkeyEvent>) {
    match a {
        KeyAction::Press(k) => {
            if !spec_is_ctrl(k) && !spec_is_meta(k) {
                (t, None)
            } else {
                let held = if spec_is_ctrl(k) {
                    HotkeyTracker { ctrl_held: true, ..t }
                } else {
                    HotkeyTracker { meta_held: true, ..t }
                };
                if held.ctrl_held && held.meta_held && held.state == State::Idle {
                    (HotkeyTracker { state: State::Armed, ..held }, Some(HotkeyEvent::Armed))
                } else {
                    (held, None)
                }
            }
        },
        KeyAction::Release(k) => {
            if !spec_is_ctrl(k) && !spec_is_meta(k) {
                (t, None)
            } else {
                let held = if spec_is_ctrl(k) {
                    HotkeyTracker { ctrl_held: false, ..t }
                } else {
                    HotkeyTracker { meta_held: false, ..t }
                };
                if held.state == State::Armed {
                    (HotkeyTracker { state: State::Idle, ..held }, Some(HotkeyEvent::Released))
                } else {
                    (held, None)
                }
            }
        },
    }
}

impl HotkeyTracker {
    /// A tracker with nothing held, not armed.
    pub fn new() -> (t: Self)
        ensures
            t == idle_tracker(),
    {
        HotkeyTracker { ctrl_held: false, meta_held: false, state: State::Idle }
    }
}

/// Forgets every held key and disarms the trigger.
pub fn reset(tracker: &mut HotkeyTracker)
    ensures
        *final(tracker) == idle_tracker(),
{
    tracker.state = State::Idle;
    tracker.ctrl_held = false;
    tracker.meta_held = false;
}

/// Feeds one keyboard event to the trigger; returns what it reports (see `step`).
pub fn handle_key(tracker: &mut HotkeyTracker, action: KeyAction) -> (ev: Option<HotkeyEvent>)
    ensures
        (*final(tracker), ev) == step(*old(tracker), action),
        action matches KeyAction::Release(k) && spec_is_ctrl(k) ==> !final(tracker).ctrl_held,
        action matches KeyAction::Release(k) && spec_is_meta(k) ==> !final(tracker).meta_held,
        action matches KeyAction::Press(k) && spec_is_ctrl(k) ==> final(tracker).ctrl_held,
        action matches KeyAction::Press(k) && spec_is_meta(k) ==> final(tracker).meta_held,
        ev == Some(HotkeyEvent::Armed) ==> final(tracker).ctrl_held && final(tracker).meta_held
            && old(tracker).state == State::Idle,
        ev == Some(HotkeyEvent::Released) ==> old(tracker).state == State::Armed && (action matches KeyAction::Release(k) && (spec_is_ctrl(k) || spec_is_meta(k))),
{
    match action {
        KeyAction::Press(k) => {
            let touched = if is_ctrl(k) {
                tracker.ctrl_held = true;
                true
            } else if is_meta(k) {
                tracker.meta_held = true;
                true
            } else {
                false
            };
            if !touched {
                return None;
            }
            if tracker.ctrl_held && tracker.meta_held {
                match tracker.state {
                    State::Idle => {
                        tracker.state = State::Armed;
                        return Some(HotkeyEvent::Armed);
                    },
                    State::Armed => {},
                }
            }
            None
        },
        KeyAction::Release(k) => {
            let touched = if is_ctrl(k) {
                tracker.ctrl_held = false;
                true
            } else if is_meta(k) {
                tracker.meta_held = false;
                true
            } else {
                false
            };
            if !touched {
                return None;
            }
            match tracker.state {
                State::Armed => {
                    tracker.state = State::Idle;
                    Some(HotkeyEvent::Released)
                },
                State::Idle => None,
            }
        },
    }
}

/// A run of keyboard events from tracker `t`: the tracker at the end and
/// every report, in order.
pub open spec fn run_keys(t: HotkeyTracker, actions: Seq<KeyAction>) -> (HotkeyTracker, Seq<HotkeyEvent>)
    decreases actions.len(),
{
    if actions.len() == 0 {
        (t, Seq::empty())
    } else {
        let (mid, reports) = run_keys(t, actions.drop_last());
        let (last, ev) = step(mid, actions.last());
        match ev {
            Some(e) => (last, reports.push(e)),
            None => (last, reports),
        }
    }
}

/// The `i`-th report of a run that starts in `start`: reports alternate,
/// beginning with `Armed` when the trigger starts idle.
pub open spec fn report_at(start: State, i: int) -> HotkeyEvent {
    if (i % 2 == 0) == (start == State::Idle) {
        HotkeyEvent::Armed
    } else {
        HotkeyEvent::Released
    }
}

/// The trigger state after `n` reports from `start`.
pub open spec fn state_after(start: State, n: int) -> State {
    if (n % 2 == 0) == (start == State::Idle) {
        State::Idle
    } else {
        State::Armed
    }
}

/// Reports alternate: `Armed` and `Released` take turns, a run that starts
/// idle reports `Armed` first, and the trigger is armed exactly when the
/// last report was `Armed`.
pub proof fn lemma_reports_alternate(t: HotkeyTracker, actions: Seq<KeyAction>)
    ensures
        forall|i: int|
            0 <= i < run_keys(t, actions).1.len() ==> #[trigger] run_keys(t, actions).1[i] == report_at(
                t.state,
                i,
            ),
        run_keys(t, actions).0.state == state_after(t.state, run_keys(t, actions).1.len() as int),
    decreases actions.len(),
{
    if actions.len() > 0 {
        lemma_reports_alternate(t, actions.drop_last());
    }
}

/// `Armed` is reported only by an idle trigger, and only when the event
/// leaves Ctrl and Meta both held.
pub proof fn lemma_armed_needs_both_keys(t: HotkeyTracker, a: KeyAction)
    ensures
        step(t, a).1 == Some(HotkeyEvent::Armed) ==> {
            &&& t.state == State::Idle
            &&& step(t, a).0.ctrl_held
            &&& step(t, a).0.meta_held
            &&& step(t, a).0.state == State::Armed
        },
{
}

/// An armed trigger reports `Released` as soon as either Ctrl or Meta is
/// let go, whether or not the other is still held, and is idle afterwards.
pub proof fn lemma_release_of_either_key_disarms(t: HotkeyTracker, k: Key)
    requires
        t.state == State::Armed,
        spec_is_ctrl(k) || spec_is_meta(k),
    ensures
        step(t, KeyAction::Release(k)).1 == Some(HotkeyEvent::Released),
        step(t, KeyAction::Release(k)).0.state == State::Idle,
{
}

/// Arming is instant: from an idle trigger with one half of the chord held,
/// pressing the other half reports `Armed` on that very press.
pub proof fn lemma_chord_arms_at_once(t: HotkeyTracker, k: Key)
    requires
        t.state == State::Idle,
        (spec_is_ctrl(k) && t.meta_held) || (spec_is_meta(k) && t.ctrl_held),
    ensures
        step(t, KeyAction::Press(k)).1 == Some(HotkeyEvent::Armed),
{
}

/// Every press or release of a Ctrl or Meta key is recorded, in every
/// state: after a release the key counts as let go, after a press as held,
/// and the other modifier keeps its status.
pub proof fn lemma_modifiers_tracked(t: HotkeyTracker, k: Key)
    ensures
        spec_is_ctrl(k) ==> !step(t, KeyAction::Release(k)).0.ctrl_held && step(t, KeyAction::Release(k)).0.meta_held == t.meta_held,
        spec_is_meta(k) ==> !step(t, KeyAction::Release(k)).0.meta_held && step(t, KeyAction::Release(k)).0.ctrl_held == t.ctrl_held,
        spec_is_ctrl(k) ==> step(t, KeyAction::Press(k)).0.ctrl_held && step(t, KeyAction::Press(k)).0.meta_held == t.meta_held,
        spec_is_meta(k) ==> step(t, KeyAction::Press(k)).0.meta_held && step(t, KeyAction::Press(k)).0.ctrl_held == t.ctrl_held,
{
}

/// Meta alone never arms: once Ctrl has been let go, pressing Meta (or any
/// key but Ctrl) reports nothing until Ctrl is pressed again.
pub proof fn lemma_meta_alone_does_not_arm(t: HotkeyTracker, ctrl: Key, other: Key)
    requires
        spec_is_ctrl(ctrl),
        !spec_is_ctrl(other),
    ensures
        step(step(t, KeyAction::Release(ctrl)).0, KeyAction::Press(other)).1 != Some(HotkeyEvent::Armed),
        !step(step(t, KeyAction::Release(ctrl)).0, KeyAction::Press(other)).0.ctrl_held,
{
}

/// Keys other than Ctrl and Meta neither change the trigger nor report.
pub proof fn lemma_other_keys_ignored(t: HotkeyTracker, k: Key)
    requires
        !spec_is_ctrl(k),
        !spec_is_meta(k),
    ensures
        step(t, KeyAction::Press(k)) == (t, None::<HotkeyEvent>),
        step(t, KeyAction::Release(k)) == (t, None::<HotkeyEvent>),
{
}

/// Holding the chord while armed (key repeat, or pressing the other Ctrl)
/// reports nothing more.
pub proof fn lemma_armed_reports_once(t: HotkeyTracker, k: Key)
    requires
        t.state == State::Armed,
    ensures
        step(t, KeyAction::Press(k)).1 is None,
        step(t, KeyAction::Press(k)).0.state == State::Armed,
{
}

} // verus!
