use bvoice::audio::{connect_step, ConnectError, ConnectStep, ServerState};
use bvoice::audio::{choose_input, set_device, sort_by_description, source_entry, AudioError, DeviceInfo, DeviceSelection, InputDevice, TARGET_RATE};

fn dev(name: &str, description: &str) -> DeviceInfo {
    DeviceInfo { name: name.to_string(), description: description.to_string() }
}

fn names(v: &[DeviceInfo]) -> Vec<&str> {
    v.iter().map(|d| d.name.as_str()).collect()
}

#[test]
fn target_rate_is_16k() {
    assert_eq!(TARGET_RATE, 16_000);
}

#[test]
fn device_selection() {
    let mut s = DeviceSelection::new();
    assert_eq!(s.device, None);
    set_device(&mut s, Some("alsa_input.usb".to_string()));
    assert_eq!(s.device.as_deref(), Some("alsa_input.usb"));
    set_device(&mut s, None);
    assert_eq!(s.device, None);
}

#[test]
fn source_filtering() {
    let e = source_entry(Some("mic".into()), Some("Built-in Mic".into()), false, false).unwrap();
    assert_eq!((e.name.as_str(), e.description.as_str()), ("mic", "Built-in Mic"));
    let e = source_entry(Some("mic".into()), None, false, false).unwrap();
    assert_eq!(e.description, "mic");
    assert!(source_entry(Some("mon".into()), Some("Monitor".into()), true, false).is_none());
    assert!(source_entry(Some("usb".into()), Some("USB".into()), false, true).is_none());
    assert!(source_entry(None, Some("Nameless".into()), false, false).is_none());
    assert!(source_entry(Some(String::new()), Some("Empty".into()), false, false).is_none());
}

#[test]
fn sorted_by_description_and_stable() {
    let list = vec![dev("c", "USB Mic"), dev("a", "Built-in"), dev("b", "USB Mic"), dev("d", "Analog"), dev("e", "Built-in")];
    let out = sort_by_description(list);
    assert_eq!(names(&out), vec!["d", "a", "e", "c", "b"]);
}

#[test]
fn sort_uses_code_point_order() {
    let list = vec![dev("1", "b"), dev("2", "B"), dev("3", "é"), dev("4", "ab"), dev("5", "a"), dev("6", "")];
    let out = sort_by_description(list);
    let mut expect: Vec<&str> = vec!["b", "B", "é", "ab", "a", ""];
    expect.sort();
    let got: Vec<&str> = out.iter().map(|d| d.description.as_str()).collect();
    assert_eq!(got, expect);
    assert!(sort_by_description(Vec::new()).is_empty());
}

#[test]
fn input_device_choice() {
    assert_eq!(choose_input(true, true, true), Ok(InputDevice::Pulse));
    assert_eq!(choose_input(true, false, true), Ok(InputDevice::Default));
    assert_eq!(choose_input(true, false, false), Err(AudioError::NoPulseOrDefaultDevice));
    assert_eq!(choose_input(false, true, true), Ok(InputDevice::Default));
    assert_eq!(choose_input(false, true, false), Err(AudioError::NoDefaultDevice));
}

#[test]
fn sound_server_connection_steps() {
    assert_eq!(connect_step(false, ServerState::Ready), ConnectStep::Fail(ConnectError::IterateFailed));
    assert_eq!(connect_step(true, ServerState::Ready), ConnectStep::Ready);
    assert_eq!(connect_step(true, ServerState::Failed), ConnectStep::Fail(ConnectError::ContextFailed));
    assert_eq!(connect_step(true, ServerState::Terminated), ConnectStep::Fail(ConnectError::ContextFailed));
    for s in [ServerState::Unconnected, ServerState::Connecting, ServerState::Authorizing, ServerState::SettingName] {
        assert_eq!(connect_step(true, s), ConnectStep::KeepWaiting);
    }
}
