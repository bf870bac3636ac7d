//! The authoring model of a profile: named action sets, each with base bindings and named
//! layers; actions refer to sets and layers by name. [`crate::compile`] turns it into the
//! runtime [`crate::program::Program`].
//!
//! The analog tuning of a binding (deadzones, curves, gains) is floating-point data kept outside
//! this crate and referred to by an [`AnalogRef`].

use vstd::prelude::*;

use crate::program::{AnalogRef, SourceMap};
use crate::vocab::{Activator, CommandSettings, GamepadButton, Key, MouseButton, Pull};

verus! {

/// An action as authored: output leaves, or a set/layer change naming its target.
#[derive(Debug, Clone, PartialEq, Eq)]
pub enum Action {
    /// Does nothing.
    Nothing,
    Key(Key),
    MouseButton(MouseButton),
    GamepadButton(GamepadButton),
    ChangeActionSet(String),
    HoldLayer(String),
    AddLayer(String),
    RemoveLayer(String),
}

/// A command as authored: when it fires and what it does.
#[derive(Debug, Clone, PartialEq, Eq)]
pub struct Command {
    pub activator: Activator,
    pub actions: Vec<Action>,
    pub settings: CommandSettings,
}

/// How a source is bound.
#[derive(Debug, Clone, PartialEq, Eq)]
pub enum SourceBinding {
    Button { commands: Vec<Command> },
    ButtonPad { up: Vec<Command>, down: Vec<Command>, left: Vec<Command>, right: Vec<Command> },
    Joystick { settings: AnalogRef, outer_ring: Vec<Command> },
    DirectionalPad {
        settings: AnalogRef,
        up: Vec<Command>,
        down: Vec<Command>,
        left: Vec<Command>,
        right: Vec<Command>,
        outer_ring: Vec<Command>,
    },
    AsMouse { settings: AnalogRef },
    JoystickMouse { settings: AnalogRef },
    GyroToMouse { settings: AnalogRef },
    Trigger { settings: AnalogRef, soft_pull_at: Pull, soft_pull: Vec<Command> },
    /// Explicitly unbound.
    Unbound,
}

/// A named layer: the bindings it overrides.
#[derive(Debug, Clone, PartialEq, Eq)]
pub struct Layer {
    pub name: String,
    pub bindings: SourceMap<SourceBinding>,
}

/// A named action set: base bindings and its layers, in declared order.
#[derive(Debug, Clone, PartialEq, Eq)]
pub struct ActionSet {
    pub name: String,
    pub bindings: SourceMap<SourceBinding>,
    pub layers: Vec<Layer>,
}

/// A profile.
#[derive(Debug, Clone, PartialEq, Eq)]
pub struct ConfigDoc {
    pub version: u32,
    pub name: String,
    pub action_sets: Vec<ActionSet>,
    pub rumble: AnalogRef,
}

/// How serious a diagnostic is: errors block compiling, warnings do not.
#[derive(Debug, Clone, Copy, PartialEq, Eq, Structural)]
pub enum Severity {
    Error,
    Warning,
}

/// A finding about a profile.
#[derive(Debug, Clone, PartialEq, Eq)]
pub struct Diagnostic {
    pub severity: Severity,
    pub message: String,
}

} // verus!
