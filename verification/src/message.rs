//! The control-plane wire vocabulary shared by the daemon and its clients: which profile role a
//! config applies to, and the engine's run state (wire mirrors of the engine's own types).

use vstd::prelude::*;

use crate::handle::Status;
use crate::program::Role;

verus! {

/// Which profile role a config applies to (wire mirror of the engine's [`Role`]).
#[derive(Debug, Clone, Copy, PartialEq, Eq, Structural)]
pub enum ProfileRole {
    Main,
    Fallback,
}

/// The engine's run state (wire mirror of the engine's [`Status`]).
#[derive(Debug, Clone, Copy, PartialEq, Eq, Structural)]
pub enum RunState {
    Idle,
    Running,
    WaitingForDevice,
}

impl ProfileRole {
    /// The wire form of an engine role.
    pub fn from_role(role: Role) -> (r: ProfileRole)
        ensures
            r == match role {
                Role::Main => ProfileRole::Main,
                Role::Fallback => ProfileRole::Fallback,
            },
    {
        match role {
            Role::Main => ProfileRole::Main,
            Role::Fallback => ProfileRole::Fallback,
        }
    }

    /// The engine role this wire role names.
    pub fn role(&self) -> (r: Role)
        ensures
            r == match self {
                ProfileRole::Main => Role::Main,
                ProfileRole::Fallback => Role::Fallback,
            },
    {
        match self {
            ProfileRole::Main => Role::Main,
            ProfileRole::Fallback => Role::Fallback,
        }
    }
}

impl RunState {
    /// The wire form of an engine run state.
    pub fn from_status(status: &Status) -> (r: RunState)
        ensures
            r == match status {
                Status::Idle => RunState::Idle,
                Status::Running => RunState::Running,
                Status::WaitingForDevice => RunState::WaitingForDevice,
            },
    {
        match status {
            Status::Idle => RunState::Idle,
            Status::Running => RunState::Running,
            Status::WaitingForDevice => RunState::WaitingForDevice,
        }
    }
}

} // verus!
