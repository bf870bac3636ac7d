//! [`LogicalFrame`] — a controller frame viewed through the logical [`InputSource`]
//! vocabulary: "what is input X doing this frame?".
//!
//! This is the digital side of the frame (buttons and trigger pulls); the analog positions of
//! sticks, pads and the gyro are evaluated alongside it by the analog behaviors.

use vstd::prelude::*;

use crate::vocab::{Button, Buttons, Dir, InputSource, Pull};

verus! {

/// The digital part of a unified controller snapshot: the held buttons and the two trigger pulls.
#[derive(Debug, Clone, Copy, PartialEq, Eq, Structural)]
pub struct ControllerState {
    pub buttons: Buttons,
    pub left_trigger: Pull,
    pub right_trigger: Pull,
}

/// The raw button behind a standalone-button source, if it is one.
pub open spec fn button_flag(source: InputSource) -> Option<Button> {
    match source {
        InputSource::LeftBumper => Some(Button::LB),
        InputSource::RightBumper => Some(Button::RB),
        InputSource::LeftTriggerFull => Some(Button::LT),
        InputSource::RightTriggerFull => Some(Button::RT),
        InputSource::LeftGrip => Some(Button::LGrip),
        InputSource::RightGrip => Some(Button::RGrip),
        InputSource::LeftGrip2 => Some(Button::LGrip2),
        InputSource::RightGrip2 => Some(Button::RGrip2),
        InputSource::View => Some(Button::View),
        InputSource::Menu => Some(Button::Menu),
        InputSource::Steam => Some(Button::Steam),
        InputSource::QuickAccess => Some(Button::QuickAccess),
        InputSource::LeftStickClick => Some(Button::LStickPress),
        InputSource::RightStickClick => Some(Button::RStickPress),
        InputSource::LeftStickTouch => Some(Button::LStickTouch),
        InputSource::RightStickTouch => Some(Button::RStickTouch),
        InputSource::LeftPadClick => Some(Button::LPadPress),
        InputSource::RightPadClick => Some(Button::RPadPress),
        InputSource::LeftPadTouch => Some(Button::LPadTouch),
        InputSource::RightPadTouch => Some(Button::RPadTouch),
        InputSource::LeftGripTouch => Some(Button::LGripTouch),
        InputSource::RightGripTouch => Some(Button::RGripTouch),
        _ => None,
    }
}

/// The raw button behind one member of a button group (face-button diamond / dpad).
pub open spec fn group_member_flag(group: InputSource, dir: Dir) -> Option<Button> {
    match (group, dir) {
        (InputSource::FaceButtons, Dir::Up) => Some(Button::Y),
        (InputSource::FaceButtons, Dir::Down) => Some(Button::A),
        (InputSource::FaceButtons, Dir::Left) => Some(Button::X),
        (InputSource::FaceButtons, Dir::Right) => Some(Button::B),
        (InputSource::DPad, Dir::Up) => Some(Button::DPadUp),
        (InputSource::DPad, Dir::Down) => Some(Button::DPadDown),
        (InputSource::DPad, Dir::Left) => Some(Button::DPadLeft),
        (InputSource::DPad, Dir::Right) => Some(Button::DPadRight),
        _ => None,
    }
}

fn exec_button_flag(source: &InputSource) -> (r: Option<Button>)
    ensures
        r == button_flag(*source),
{
    match source {
        InputSource::LeftBumper => Some(Button::LB),
        InputSource::RightBumper => Some(Button::RB),
        InputSource::LeftTriggerFull => Some(Button::LT),
        InputSource::RightTriggerFull => Some(Button::RT),
        InputSource::LeftGrip => Some(Button::LGrip),
        InputSource::RightGrip => Some(Button::RGrip),
        InputSource::LeftGrip2 => Some(Button::LGrip2),
        InputSource::RightGrip2 => Some(Button::RGrip2),
        InputSource::View => Some(Button::View),
        InputSource::Menu => Some(Button::Menu),
        InputSource::Steam => Some(Button::Steam),
        InputSource::QuickAccess => Some(Button::QuickAccess),
        InputSource::LeftStickClick => Some(Button::LStickPress),
        InputSource::RightStickClick => Some(Button::RStickPress),
        InputSource::LeftStickTouch => Some(Button::LStickTouch),
        InputSource::RightStickTouch => Some(Button::RStickTouch),
        InputSource::LeftPadClick => Some(Button::LPadPress),
        InputSource::RightPadClick => Some(Button::RPadPress),
        InputSource::LeftPadTouch => Some(Button::LPadTouch),
        InputSource::RightPadTouch => Some(Button::RPadTouch),
        InputSource::LeftGripTouch => Some(Button::LGripTouch),
        InputSource::RightGripTouch => Some(Button::RGripTouch),
        _ => None,
    }
}

fn exec_group_member_flag(group: &InputSource, dir: &Dir) -> (r: Option<Button>)
    ensures
        r == group_member_flag(*group, *dir),
{
    match (group, dir) {
        (InputSource::FaceButtons, Dir::Up) => Some(Button::Y),
        (InputSource::FaceButtons, Dir::Down) => Some(Button::A),
        (InputSource::FaceButtons, Dir::Left) => Some(Button::X),
        (InputSource::FaceButtons, Dir::Right) => Some(Button::B),
        (InputSource::DPad, Dir::Up) => Some(Button::DPadUp),
        (InputSource::DPad, Dir::Down) => Some(Button::DPadDown),
        (InputSource::DPad, Dir::Left) => Some(Button::DPadLeft),
        (InputSource::DPad, Dir::Right) => Some(Button::DPadRight),
        _ => None,
    }
}

/// One controller frame viewed through the logical [`InputSource`] vocabulary.
#[derive(Debug, Clone, Copy, PartialEq, Eq)]
pub struct LogicalFrame {
    state: ControllerState,
}

impl LogicalFrame {
    /// The snapshot this frame views.
    pub closed spec fn spec_state(self) -> ControllerState {
        self.state
    }

    /// Whether raw button `b` is held.
    pub open spec fn held(self, b: Button) -> bool {
        self.spec_state().buttons.has(b)
    }

    /// The digital level of a standalone-button source (`false` for other sources).
    pub open spec fn spec_button(self, source: InputSource) -> bool {
        match button_flag(source) {
            Some(b) => self.held(b),
            None => false,
        }
    }

    /// The digital level of one member of a button group (`false` for other sources).
    pub open spec fn spec_group_member(self, group: InputSource, dir: Dir) -> bool {
        match group_member_flag(group, dir) {
            Some(b) => self.held(b),
            None => false,
        }
    }

    /// The analog pull of a trigger source (zero for other sources).
    pub open spec fn spec_trigger(self, source: InputSource) -> Pull {
        match source {
            InputSource::LeftTrigger => self.spec_state().left_trigger,
            InputSource::RightTrigger => self.spec_state().right_trigger,
            _ => Pull(0),
        }
    }

    /// The frame viewing `state`.
    pub closed spec fn of(state: ControllerState) -> LogicalFrame {
        LogicalFrame { state }
    }

    pub fn new(state: ControllerState) -> (f: LogicalFrame)
        ensures
            f.spec_state() == state,
            f == LogicalFrame::of(state),
    {
        LogicalFrame { state }
    }

    /// The underlying snapshot.
    pub fn state(&self) -> (s: &ControllerState)
        ensures
            *s == self.spec_state(),
    {
        &self.state
    }

    /// A copy with the given raw buttons released — used to consume the buttons a global chord
    /// fired on, so profile bindings don't also see them.
    pub fn masked(&self, consumed: &[Button]) -> (f: LogicalFrame)
        ensures
            forall|b: Button| #[trigger] f.held(b) == (self.held(b) && !consumed@.contains(b)),
            f.spec_state().left_trigger == self.spec_state().left_trigger,
            f.spec_state().right_trigger == self.spec_state().right_trigger,
    {
        let mut state = self.state;
        let mut i: usize = 0;
        while i < consumed.len()
            invariant
                0 <= i <= consumed@.len(),
                state.left_trigger == self.state.left_trigger,
                state.right_trigger == self.state.right_trigger,
                forall|b: Button| #[trigger] state.buttons.has(b) == (self.state.buttons.has(b)
                    && !consumed@.subrange(0, i as int).contains(b)),
            decreases consumed.len() - i,
        {
            let ghost prev = state;
            state.buttons = state.buttons.without(consumed[i]);
            proof {
                assert forall|b: Button| #[trigger] state.buttons.has(b) == (self.state.buttons.has(b)
                    && !consumed@.subrange(0, i + 1).contains(b)) by {
                    assert(consumed@.subrange(0, i + 1) == consumed@.subrange(0, i as int).push(
                        consumed@[i as int],
                    ));
                    if consumed@.subrange(0, i as int).contains(b) {
                        let k = choose|k: int| 0 <= k < i && consumed@.subrange(0, i as int)[k] == b;
                        assert(consumed@.subrange(0, i + 1)[k] == b);
                    }
                    if b == consumed@[i as int] {
                        assert(consumed@.subrange(0, i + 1)[i as int] == b);
                    }
                }
            }
            i += 1;
        }
        assert(consumed@.subrange(0, consumed@.len() as int) == consumed@);
        LogicalFrame { state }
    }

    /// Digital level of a standalone-button input; `false` for non-button sources.
    pub fn button(&self, source: &InputSource) -> (r: bool)
        ensures
            r == self.spec_button(*source),
    {
        match exec_button_flag(source) {
            Some(b) => self.state.buttons.contains(&b),
            None => false,
        }
    }

    /// Whether a raw controller button is held (chords and gaters name hardware buttons).
    pub fn button_held(&self, b: &Button) -> (r: bool)
        ensures
            r == self.held(*b),
    {
        self.state.buttons.contains(b)
    }

    /// Digital level of one member of a button group; `false` for non-group sources.
    pub fn group_member(&self, group: &InputSource, dir: &Dir) -> (r: bool)
        ensures
            r == self.spec_group_member(*group, *dir),
    {
        match exec_group_member_flag(group, dir) {
            Some(b) => self.state.buttons.contains(&b),
            None => false,
        }
    }

    /// Analog pull of a trigger source; zero for other sources.
    pub fn trigger(&self, source: &InputSource) -> (p: Pull)
        ensures
            p == self.spec_trigger(*source),
    {
        match source {
            InputSource::LeftTrigger => self.state.left_trigger,
            InputSource::RightTrigger => self.state.right_trigger,
            _ => Pull(0),
        }
    }
}

/// The button groups' members: the face-button diamond is Y on top, A at the bottom, X on the
/// left and B on the right; the d-pad's members are its four directions. Other sources have no
/// members.
pub proof fn law_group_members(frame: LogicalFrame, source: InputSource, dir: Dir)
    ensures
        frame.spec_group_member(InputSource::FaceButtons, Dir::Up) == frame.held(Button::Y),
        frame.spec_group_member(InputSource::FaceButtons, Dir::Down) == frame.held(Button::A),
        frame.spec_group_member(InputSource::FaceButtons, Dir::Left) == frame.held(Button::X),
        frame.spec_group_member(InputSource::FaceButtons, Dir::Right) == frame.held(Button::B),
        frame.spec_group_member(InputSource::DPad, Dir::Up) == frame.held(Button::DPadUp),
        frame.spec_group_member(InputSource::DPad, Dir::Down) == frame.held(Button::DPadDown),
        frame.spec_group_member(InputSource::DPad, Dir::Left) == frame.held(Button::DPadLeft),
        frame.spec_group_member(InputSource::DPad, Dir::Right) == frame.held(Button::DPadRight),
        source != InputSource::FaceButtons && source != InputSource::DPad ==> !frame.spec_group_member(
            source,
            dir,
        ),
{
}

} // verus!
