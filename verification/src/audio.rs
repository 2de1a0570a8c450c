//! Capture-side decisions: which input source is recorded from, and the
//! list of input sources offered in the settings.
use vstd::prelude::*;
use crate::text::{chars_of, chars_le, lex_le, lemma_chars_le_total, lemma_chars_le_transitive};

verus! {

/// Sample rate that recordings are converted to for the speech model.
pub const TARGET_RATE: u32 = 16_000;

/// An input source offered in the settings: its system name and the label
/// shown for it.
#[derive(Clone, Debug)]
pub struct DeviceInfo {
    pub name: String,
    pub description: String,
}

/// The input source chosen in the settings; `None` records from the
/// system default.
pub struct DeviceSelection {
    pub device: Option<String>,
}

impl DeviceSelection {
    /// No source chosen: the system default is recorded.
    pub fn new() -> (s: Self)
        ensures
            s.device is None,
    {
        DeviceSelection { device: None }
    }
}

/// Chooses the input source for the next recordings.
pub fn set_device(selection: &mut DeviceSelection, name: Option<String>)
    ensures
        final(selection).device == name,
{
    selection.device = name;
}

/// The entry that an input source reported by the sound server yields in
/// the list: none for a monitor of an output, for a source whose active port
/// is unplugged, or for a source without a name; otherwise its name, and its
/// description or, lacking one, its name.
pub open spec fn spec_source_entry(
    name: Option<Seq<char>>,
    description: Option<Seq<char>>,
    is_monitor: bool,
    port_unplugged: bool,
) -> Option<(Seq<char>, Seq<char>)> {
    let n = match name {
        Some(n) => n,
        None => Seq::empty(),
    };
    if is_monitor || port_unplugged || n.len() == 0 {
        None
    } else {
        Some(
            (
                n,
                match description {
                    Some(d) => d,
                    None => n,
                },
            ),
        )
    }
}

/// The view of an optional text.
pub open spec fn opt_view(s: Option<String>) -> Option<Seq<char>> {
    match s {
        Some(t) => Some(t@),
        None => None,
    }
}

/// The input device that a recording opens.
#[derive(Clone, Copy, Debug, PartialEq, Eq)]
pub enum InputDevice {
    /// The sound server's own device, which records from the chosen source.
    Pulse,
    /// The system's default input device.
    Default,
}

/// Why a recording could not open an input device.
#[derive(Clone, Copy, Debug, PartialEq, Eq)]
pub enum AudioError {
    /// A source was chosen, but there is neither a sound-server device nor a default one.
    NoPulseOrDefaultDevice,
    /// No source was chosen and there is no default input device.
    NoDefaultDevice,
}

/// The device to open: with a chosen source the sound-server device (whose
/// source is set to the chosen one), falling back to the default device;
/// without one the default device.
pub open spec fn spec_choose_input(source_chosen: bool, pulse_found: bool, default_found: bool) -> Result<
    InputDevice,
    AudioError,
> {
    if source_chosen {
        if pulse_found {
            Ok(InputDevice::Pulse)
        } else if default_found {
            Ok(InputDevice::Default)
        } else {
            Err(AudioError::NoPulseOrDefaultDevice)
        }
    } else if default_found {
        Ok(InputDevice::Default)
    } else {
        Err(AudioError::NoDefaultDevice)
    }
}

/// Chooses the device to open (see `spec_choose_input`).
pub fn choose_input(source_chosen: bool, pulse_found: bool, default_found: bool) -> (r: Result<InputDevice, AudioError>)
    ensures
        r == spec_choose_input(source_chosen, pulse_found, default_found),
{
    if source_chosen {
        if pulse_found {
            Ok(InputDevice::Pulse)
        } else if default_found {
            Ok(InputDevice::Default)
        } else {
            Err(AudioError::NoPulseOrDefaultDevice)
        }
    } else if default_found {
        Ok(InputDevice::Default)
    } else {
        Err(AudioError::NoDefaultDevice)
    }
}

/// The sound server's connection state, as the client library reports it.
#[derive(Clone, Copy, Debug, PartialEq, Eq)]
pub enum ServerState {
    Unconnected,
    Connecting,
    Authorizing,
    SettingName,
    Ready,
    Failed,
    Terminated,
}

/// Why connecting to the sound server failed.
#[derive(Clone, Copy, Debug, PartialEq, Eq)]
pub enum ConnectError {
    /// The event loop stopped or failed while connecting.
    IterateFailed,
    /// The connection failed or was closed before it became ready.
    ContextFailed,
}

/// What to do after one turn of the event loop while connecting.
#[derive(Clone, Copy, Debug, PartialEq, Eq)]
pub enum ConnectStep {
    /// Not ready yet: run the loop again.
    KeepWaiting,
    /// Connected: go on to list the sources.
    Ready,
    /// Give up with this error.
    Fail(ConnectError),
}

/// The decision after one turn of the event loop: a failed turn ends the
/// attempt; otherwise a ready connection goes on, a failed or closed one
/// ends the attempt, and any other state waits for the next turn.
pub open spec fn spec_connect_step(turn_ok: bool, state: ServerState) -> ConnectStep {
    if !turn_ok {
        ConnectStep::Fail(ConnectError::IterateFailed)
    } else {
        match state {
            ServerState::Ready => ConnectStep::Ready,
            ServerState::Failed | ServerState::Terminated => ConnectStep::Fail(ConnectError::ContextFailed),
            _ => ConnectStep::KeepWaiting,
        }
    }
}

/// Decides how connecting goes on (see `spec_connect_step`).
pub fn connect_step(turn_ok: bool, state: ServerState) -> (s: ConnectStep)
    ensures
        s == spec_connect_step(turn_ok, state),
{
    if !turn_ok {
        return ConnectStep::Fail(ConnectError::IterateFailed);
    }
    match state {
        ServerState::Ready => ConnectStep::Ready,
        ServerState::Failed => ConnectStep::Fail(ConnectError::ContextFailed),
        ServerState::Terminated => ConnectStep::Fail(ConnectError::ContextFailed),
        _ => ConnectStep::KeepWaiting,
    }
}

/// The list entry for one input source (see `spec_source_entry`).
pub fn source_entry(
    name: Option<String>,
    description: Option<String>,
    is_monitor: bool,
    port_unplugged: bool,
) -> (r: Option<DeviceInfo>)
    ensures
        match spec_source_entry(opt_view(name), opt_view(description), is_monitor, port_unplugged) {
            Some((n, d)) => r matches Some(info) && info.name@ == n && info.description@ == d,
            None => r is None,
        },
{
    if is_monitor || port_unplugged {
        return None;
    }
    let name = match name {
        Some(n) => n,
        None => String::new(),
    };
    if name.as_str().unicode_len() == 0 {
        return None;
    }
    let description = match description {
        Some(d) => d,
        None => name.clone(),
    };
    Some(DeviceInfo { name, description })
}

/// Where `x` goes in `s` when inserted after every entry whose description
/// comes no later than its own: before the first entry described later.
pub open spec fn insert_pos(s: Seq<DeviceInfo>, x: DeviceInfo) -> int
    decreases s.len(),
{
    if s.len() == 0 || !chars_le(s[0].description@, x.description@) {
        0
    } else {
        1 + insert_pos(s.drop_first(), x)
    }
}

/// `devices` in order of description, entries of equal description kept in
/// their original order (the result of a stable sort by description).
pub open spec fn sorted_by_description(devices: Seq<DeviceInfo>) -> Seq<DeviceInfo>
    decreases devices.len(),
{
    if devices.len() == 0 {
        Seq::empty()
    } else {
        let rest = sorted_by_description(devices.drop_last());
        rest.insert(insert_pos(rest, devices.last()), devices.last())
    }
}

proof fn lemma_insert_pos_bounds(s: Seq<DeviceInfo>, x: DeviceInfo)
    ensures
        0 <= insert_pos(s, x) <= s.len(),
        forall|i: int| 0 <= i < insert_pos(s, x) ==> chars_le(#[trigger] s[i].description@, x.description@),
        insert_pos(s, x) < s.len() ==> !chars_le(s[insert_pos(s, x)].description@, x.description@),
    decreases s.len(),
{
    if s.len() > 0 && chars_le(s[0].description@, x.description@) {
        lemma_insert_pos_bounds(s.drop_first(), x);
        assert forall|i: int| 0 <= i < insert_pos(s, x) implies chars_le(#[trigger] s[i].description@, x.description@) by {
            if i > 0 {
                assert(s[i] == s.drop_first()[i - 1]);
            }
        }
    }
}

/// Sorts the input sources by description (see `sorted_by_description`).
pub fn sort_by_description(devices: Vec<DeviceInfo>) -> (out: Vec<DeviceInfo>)
    ensures
        out@ == sorted_by_description(devices@),
{
    let ghost orig = devices@;
    let mut rest = devices;
    let mut out: Vec<DeviceInfo> = Vec::new();
    let n = rest.len();
    let mut k: usize = 0;
    while k < n
        invariant
            k <= n,
            n == orig.len(),
            rest@ == orig.skip(k as int),
            out@ == sorted_by_description(orig.take(k as int)),
        decreases n - k,
    {
        assert(rest@.len() > 0);
        let x = rest.remove(0);
        assert(x == orig[k as int]);
        assert(orig.skip(k as int).remove(0) == orig.skip(k + 1));
        let xd = chars_of(x.description.as_str());
        let mut j: usize = 0;
        assert(out@.skip(0) == out@);
        while j < out.len() && lex_le(&chars_of(out[j].description.as_str()), &xd)
            invariant
                j <= out.len(),
                xd@ == x.description@,
                insert_pos(out@, x) == j + insert_pos(out@.skip(j as int), x),
            decreases out.len() - j,
        {
            assert(out@.skip(j as int).drop_first() == out@.skip(j + 1));
            j = j + 1;
        }
        assert(insert_pos(out@.skip(j as int), x) == 0);
        assert(orig.take(k + 1).drop_last() == orig.take(k as int));
        out.insert(j, x);
        k = k + 1;
    }
    assert(orig.take(n as int) == orig);
    out
}

/// Whether the entries of `s` are in order of description.
pub open spec fn ordered_by_description(s: Seq<DeviceInfo>) -> bool {
    forall|i: int, j: int|
        0 <= i < j < s.len() ==> chars_le(#[trigger] s[i].description@, #[trigger] s[j].description@)
}

/// The sorted list is in order of description and holds exactly the
/// entries it was given.
pub proof fn lemma_sorted_list(devices: Seq<DeviceInfo>)
    ensures
        ordered_by_description(sorted_by_description(devices)),
        sorted_by_description(devices).to_multiset() == devices.to_multiset(),
    decreases devices.len(),
{
    if devices.len() > 0 {
        let rest = sorted_by_description(devices.drop_last());
        let x = devices.last();
        lemma_sorted_list(devices.drop_last());
        lemma_insert_pos_bounds(rest, x);
        let p = insert_pos(rest, x);
        let out = rest.insert(p, x);
        assert forall|i: int, j: int| 0 <= i < j < out.len() implies chars_le(
            #[trigger] out[i].description@,
            #[trigger] out[j].description@,
        ) by {
            if i == p {
                // x before a later entry rest[j - 1], j - 1 >= p
                lemma_chars_le_total(rest[p].description@, x.description@);
                if j - 1 > p {
                    lemma_chars_le_transitive(x.description@, rest[p].description@, rest[j - 1].description@);
                }
            } else if j == p {
                assert(out[i] == rest[i]);
            } else {
                let ii = if i < p { i } else { i - 1 };
                let jj = if j < p { j } else { j - 1 };
                assert(out[i] == rest[ii]);
                assert(out[j] == rest[jj]);
                assert(ii < jj);
            }
        }
        broadcast use vstd::seq_lib::group_to_multiset_ensures;
        assert(devices =~= devices.drop_last().push(x));
    } else {
        broadcast use vstd::seq_lib::group_to_multiset_ensures;
        assert(devices.to_multiset().len() == 0);
        assert(sorted_by_description(devices).to_multiset().len() == 0);
    }
}

} // verus!
