use deckhand::forwarder::{apply_event, engine_started, start_enabled, ForwarderEvent, Settings, StatusView};
use deckhand::message::{ProfileRole, RunState};

fn status() -> StatusView {
    StatusView {
        state: RunState::Running,
        controller: Some(true),
        bound: Some("1-2".to_string()),
        input: "deck".to_string(),
        active: Some(ProfileRole::Main),
    }
}

#[test]
fn settings_default_is_dark_and_deck_sized() {
    let s = Settings::default();
    assert_eq!(s.theme, "Dark");
    assert_eq!((s.window_width, s.window_height), (1280, 800));
    assert!(!s.window_maximized);
    assert!(s.last_input.is_empty());
    assert!(s.last_output_network.is_empty());
}

#[test]
fn engine_started_means_running_or_waiting() {
    assert!(engine_started(Some(RunState::Running)));
    assert!(engine_started(Some(RunState::WaitingForDevice)));
    assert!(!engine_started(Some(RunState::Idle)));
    assert!(!engine_started(None));
}

#[test]
fn going_idle_clears_controller_and_role() {
    let mut s = Some(status());
    apply_event(&mut s, ForwarderEvent::State(RunState::Idle));
    let s = s.unwrap();
    assert_eq!(s.state, RunState::Idle);
    assert_eq!(s.controller, None);
    assert_eq!(s.active, None);
    assert_eq!(s.bound, Some("1-2".to_string()));
    assert_eq!(s.input, "deck");
}

#[test]
fn events_set_absolute_values() {
    let mut s = Some(status());
    apply_event(&mut s, ForwarderEvent::State(RunState::WaitingForDevice));
    apply_event(&mut s, ForwarderEvent::ControllerConnected(false));
    apply_event(&mut s, ForwarderEvent::BindingRemoved);
    apply_event(&mut s, ForwarderEvent::InputStaged("net".to_string()));
    let v = s.clone().unwrap();
    assert_eq!(v.state, RunState::WaitingForDevice);
    assert_eq!(v.controller, Some(false));
    assert_eq!(v.active, Some(ProfileRole::Main));
    assert_eq!(v.bound, None);
    assert_eq!(v.input, "net");
    apply_event(&mut s, ForwarderEvent::BindingAcquired("3-4".to_string()));
    apply_event(&mut s, ForwarderEvent::Other);
    assert_eq!(s.unwrap().bound, Some("3-4".to_string()));
}

#[test]
fn no_cached_status_stays_empty() {
    let mut s: Option<StatusView> = None;
    apply_event(&mut s, ForwarderEvent::ControllerConnected(true));
    assert!(s.is_none());
}

#[test]
fn start_is_offered_only_when_idle() {
    assert!(start_enabled(Some(RunState::Idle)));
    assert!(!start_enabled(Some(RunState::Running)));
    assert!(!start_enabled(Some(RunState::WaitingForDevice)));
    assert!(!start_enabled(None));
}
