//! The forwarder UI's rules: what it remembers between runs, and how daemon events update the
//! status it shows. The window, the widgets and the daemon connection live around it.

use vstd::prelude::*;

use crate::message::{ProfileRole, RunState};

verus! {

/// The forwarder's remembered settings: the theme (by name), the window geometry, and the last
/// input and output specs.
#[derive(Debug, Clone, PartialEq, Eq)]
pub struct Settings {
    pub theme: String,
    pub window_width: u32,
    pub window_height: u32,
    pub window_maximized: bool,
    pub last_input: String,
    pub last_output_network: String,
}

impl Default for Settings {
    /// The dark theme, a near full-screen window on the Deck's display, nothing remembered yet.
    fn default() -> (s: Settings)
        ensures
            s.theme@ == "Dark"@,
            s.window_width == 1280,
            s.window_height == 800,
            !s.window_maximized,
            s.last_input@.len() == 0,
            s.last_output_network@.len() == 0,
    {
        Settings {
            theme: String::from_str("Dark"),
            window_width: 1280,
            window_height: 800,
            window_maximized: false,
            last_input: String::new(),
            last_output_network: String::new(),
        }
    }
}

/// The part of the engine status the forwarder shows.
#[derive(Debug, Clone, PartialEq, Eq)]
pub struct StatusView {
    pub state: RunState,
    pub controller: Option<bool>,
    pub bound: Option<String>,
    pub input: String,
    pub active: Option<ProfileRole>,
}

/// A daemon event, as far as the forwarder tells them apart.
#[derive(Debug, Clone, PartialEq, Eq)]
pub enum ForwarderEvent {
    State(RunState),
    ControllerConnected(bool),
    BindingRemoved,
    BindingAcquired(String),
    InputStaged(String),
    /// An event the forwarder does not show (output staged, role, profiles, chords, battery).
    Other,
}

/// Whether the engine is started (running, or waiting for its device).
pub fn engine_started(state: Option<RunState>) -> (r: bool)
    ensures
        r == (state == Some(RunState::Running) || state == Some(RunState::WaitingForDevice)),
{
    match state {
        Some(RunState::Running) | Some(RunState::WaitingForDevice) => true,
        _ => false,
    }
}

/// Whether Start is offered: the daemon is reachable and the engine idle.
pub fn start_enabled(state: Option<RunState>) -> (r: bool)
    ensures
        r == (state == Some(RunState::Idle)),
{
    match state {
        Some(RunState::Idle) => true,
        _ => false,
    }
}

/// The cached status after one daemon event (events carry absolute values). Going idle clears
/// the controller and the active role.
pub open spec fn event_applied(s: StatusView, ev: ForwarderEvent) -> StatusView {
    match ev {
        ForwarderEvent::State(st) => if st == RunState::Idle {
            StatusView { state: st, controller: None, active: None, ..s }
        } else {
            StatusView { state: st, ..s }
        },
        ForwarderEvent::ControllerConnected(c) => StatusView { controller: Some(c), ..s },
        ForwarderEvent::BindingRemoved => StatusView { bound: None, ..s },
        ForwarderEvent::BindingAcquired(id) => StatusView { bound: Some(id), ..s },
        ForwarderEvent::InputStaged(i) => StatusView { input: i, ..s },
        ForwarderEvent::Other => s,
    }
}

/// Apply one daemon event to the cached status in place. With no cached status there is
/// nothing to update.
pub fn apply_event(status: &mut Option<StatusView>, ev: ForwarderEvent)
    ensures
        *final(status) == (match *old(status) {
            Some(s) => Some(event_applied(s, ev)),
            None => None,
        }),
{
    match status {
        None => {},
        Some(s) => match ev {
            ForwarderEvent::State(st) => {
                s.state = st;
                if st == RunState::Idle {
                    s.controller = None;
                    s.active = None;
                }
            },
            ForwarderEvent::ControllerConnected(c) => {
                s.controller = Some(c);
            },
            ForwarderEvent::BindingRemoved => {
                s.bound = None;
            },
            ForwarderEvent::BindingAcquired(id) => {
                s.bound = Some(id);
            },
            ForwarderEvent::InputStaged(i) => {
                s.input = i;
            },
            ForwarderEvent::Other => {},
        },
    }
}

} // verus!
