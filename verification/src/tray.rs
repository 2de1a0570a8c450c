//! The tray's recording state and how long it has held it.
use vstd::prelude::*;

verus! {

/// What the application is doing, as the tray shows it.
#[derive(Clone, Copy, Debug, PartialEq, Eq)]
pub enum State {
    Idle,
    Recording,
    Transcribing,
}

/// The name under which a state is announced to the settings window.
pub open spec fn state_name(s: State) -> Seq<char> {
    match s {
        State::Idle => "idle"@,
        State::Recording => "recording"@,
        State::Transcribing => "transcribing"@,
    }
}

impl State {
    /// The name under which this state is announced (see `state_name`).
    pub fn as_str(self) -> (r: &'static str)
        ensures
            r@ == state_name(self),
    {
        match self {
            State::Idle => "idle",
            State::Recording => "recording",
            State::Transcribing => "transcribing",
        }
    }
}

/// The last state set, with the time it was set (nanoseconds on the
/// application's monotonic clock); nothing before the first `set_state`.
pub struct TrayStatus {
    current: Option<(State, u64)>,
}

impl TrayStatus {
    /// The state last set and when.
    pub closed spec fn last(&self) -> Option<(State, u64)> {
        self.current
    }

    /// A status on which no state was set yet.
    pub fn new() -> (t: Self)
        ensures
            t.last() is None,
    {
        TrayStatus { current: None }
    }
}

/// Records that the tray entered `state` at time `now`.
pub fn set_state(tray: &mut TrayStatus, state: State, now: u64)
    ensures
        final(tray).last() == Some((state, now)),
{
    tray.current = Some((state, now));
}

/// Time elapsed from `since` to `now`; zero when `now` is not later.
pub open spec fn elapsed(since: u64, now: u64) -> u64 {
    if now >= since { (now - since) as u64 } else { 0 }
}

/// The last state set and how long before `now` it was set.
pub open spec fn aged(tray: TrayStatus, now: u64) -> Option<(State, u64)> {
    match tray.last() {
        Some((s, t)) => Some((s, elapsed(t, now))),
        None => None,
    }
}

/// The last state set and how long ago (`None` before the first `set_state`).
pub fn state_with_age(tray: &TrayStatus, now: u64) -> (r: Option<(State, u64)>)
    ensures
        r == aged(*tray, now),
{
    match tray.current {
        Some((s, t)) => Some((s, now.saturating_sub(t))),
        None => None,
    }
}

/// What `state_with_age` reads back is what `set_state` wrote, aged by the
/// time that has passed since; a state read at the moment it is set has age 0.
pub proof fn lemma_state_read_back(tray: TrayStatus, state: State, set_at: u64, now: u64)
    requires
        tray.last() == Some((state, set_at)),
        set_at <= now,
    ensures
        aged(tray, now) == Some((state, (now - set_at) as u64)),
        aged(tray, set_at) == Some((state, 0u64)),
{
}

} // verus!
