use deckhand::link::{ping_due, pump_state, redial, route, PumpEnd, Redial, Route};
use deckhand::session::{DeviceKind, LapActions, ReportActions, ReportKind, Session};

#[test]
fn a_session_starts_connected_and_configured() {
    let (s, a) = Session::start(DeviceKind::Gordon, true, Some(80), 1000);
    assert_eq!(a, ReportActions { connected: Some(true), apply_config: true, battery: None });
    assert_eq!((s.level, s.battery), ((0, 0), Some(80)));
}

#[test]
fn reports_publish_presence_config_and_changed_battery() {
    let (mut s, _) = Session::start(DeviceKind::Neptune, false, None, 0);
    assert_eq!(s.on_report(ReportKind::Connected), ReportActions { connected: Some(true), apply_config: true, battery: None });
    assert_eq!(s.on_report(ReportKind::Disconnected), ReportActions { connected: Some(false), apply_config: false, battery: None });
    assert_eq!(s.on_report(ReportKind::Battery(55)).battery, Some(55));
    assert_eq!(s.on_report(ReportKind::Battery(55)).battery, None);
    assert_eq!(s.on_report(ReportKind::Battery(54)).battery, Some(54));
    assert_eq!(s.on_report(ReportKind::State), ReportActions { connected: None, apply_config: false, battery: None });
}

#[test]
fn the_keepalive_comes_every_three_seconds_where_needed() {
    let (mut s, _) = Session::start(DeviceKind::Gordon, true, None, 0);
    assert!(!s.lap(2999, &vec![]).keepalive);
    assert!(s.lap(3000, &vec![]).keepalive);
    assert!(!s.lap(3001, &vec![]).keepalive);
    let (mut t, _) = Session::start(DeviceKind::Neptune, false, None, 0);
    assert!(!t.lap(10_000, &vec![]).keepalive);
}

#[test]
fn motor_rumble_fires_on_change_and_refires_while_on() {
    let (mut s, _) = Session::start(DeviceKind::Neptune, false, None, 0);
    assert_eq!(s.lap(10, &vec![(100, 0), (200, 50)]), LapActions { keepalive: false, fire_rumble: true });
    assert_eq!(s.level, (200, 50));
    assert!(!s.lap(400, &vec![]).fire_rumble);
    assert!(s.lap(510, &vec![]).fire_rumble);
    // A change to zero is issued (it stops the motors); zero never re-fires.
    assert!(s.lap(520, &vec![(0, 0)]).fire_rumble);
    assert!(!s.lap(5000, &vec![]).fire_rumble);
}

#[test]
fn pulse_trains_fire_on_the_cadence_only() {
    let (mut s, _) = Session::start(DeviceKind::Gordon, false, None, 0);
    assert!(!s.lap(100, &vec![(1000, 1000)]).fire_rumble);
    assert!(s.lap(220, &vec![]).fire_rumble);
    assert!(!s.lap(300, &vec![]).fire_rumble);
    let (mut t, _) = Session::start(DeviceKind::Triton, false, None, 0);
    assert!(t.lap(1, &vec![(9, 9)]).fire_rumble);
    assert!(t.lap(401, &vec![]).fire_rumble);
}

#[test]
fn the_uplink_routes_snapshots_by_datagram() {
    assert_eq!(route(ReportKind::State), Route::Datagram);
    assert_eq!(route(ReportKind::Connected), Route::Stream);
    assert_eq!(route(ReportKind::Battery(3)), Route::Stream);
    assert!(!ping_due(1999, 1000));
    assert!(ping_due(2000, 1000));
    assert!(!ping_due(5, 10));
}

#[test]
fn a_lost_device_drops_and_holds_the_link() {
    assert_eq!(pump_state(false, false), Some(PumpEnd::Stop));
    assert_eq!(pump_state(true, true), Some(PumpEnd::Broke));
    assert_eq!(pump_state(true, false), None);
    assert_eq!(redial(false, true), Redial::Stop);
    assert_eq!(redial(true, true), Redial::Wait);
    assert_eq!(redial(true, false), Redial::Dial);
}
