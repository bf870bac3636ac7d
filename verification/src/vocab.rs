//! The input and output vocabulary the mapper speaks: logical input sources, raw controller
//! buttons, and the keyboard / mouse / gamepad outputs a binding can drive.

use vstd::prelude::*;

verus! {

/// A value with a stable numeric code: the code orders values (declaration order) and tells
/// them apart.
pub trait Coded: Sized + Copy {
    spec fn spec_code(self) -> u16;

    fn code(&self) -> (c: u16)
        ensures
            c == self.spec_code(),
    ;

    proof fn lemma_code_injective(a: Self, b: Self)
        ensures
            a.spec_code() == b.spec_code() ==> a == b,
    ;
}

/// A keyboard key (the output vocabulary a virtual keyboard realizes).
#[derive(Debug, Clone, Copy, PartialEq, Eq, PartialOrd, Ord, Hash, Structural)]
pub enum Key {
    Escape,
    Num1,
    Num2,
    Num3,
    Num4,
    Num5,
    Num6,
    Num7,
    Num8,
    Num9,
    Num0,
    Minus,
    Equal,
    Backspace,
    Tab,
    Q,
    W,
    E,
    R,
    T,
    Y,
    U,
    I,
    O,
    P,
    LeftBrace,
    RightBrace,
    Enter,
    LeftCtrl,
    A,
    S,
    D,
    F,
    G,
    H,
    J,
    K,
    L,
    Semicolon,
    Apostrophe,
    Grave,
    LeftShift,
    Backslash,
    Z,
    X,
    C,
    V,
    B,
    N,
    M,
    Comma,
    Dot,
    Slash,
    RightShift,
    LeftAlt,
    Space,
    CapsLock,
    F1,
    F2,
    F3,
    F4,
    F5,
    F6,
    F7,
    F8,
    F9,
    F10,
    F11,
    F12,
    RightCtrl,
    RightAlt,
    Home,
    Up,
    PageUp,
    Left,
    Right,
    End,
    Down,
    PageDown,
    Insert,
    Delete,
    LeftMeta,
    RightMeta,
}

impl Key {
    /// Position in declaration order.
    pub open spec fn spec_from_code(i: u16) -> Key {
        match i {
            0 => Key::Escape,
            1 => Key::Num1,
            2 => Key::Num2,
            3 => Key::Num3,
            4 => Key::Num4,
            5 => Key::Num5,
            6 => Key::Num6,
            7 => Key::Num7,
            8 => Key::Num8,
            9 => Key::Num9,
            10 => Key::Num0,
            11 => Key::Minus,
            12 => Key::Equal,
            13 => Key::Backspace,
            14 => Key::Tab,
            15 => Key::Q,
            16 => Key::W,
            17 => Key::E,
            18 => Key::R,
            19 => Key::T,
            20 => Key::Y,
            21 => Key::U,
            22 => Key::I,
            23 => Key::O,
            24 => Key::P,
            25 => Key::LeftBrace,
            26 => Key::RightBrace,
            27 => Key::Enter,
            28 => Key::LeftCtrl,
            29 => Key::A,
            30 => Key::S,
            31 => Key::D,
            32 => Key::F,
            33 => Key::G,
            34 => Key::H,
            35 => Key::J,
            36 => Key::K,
            37 => Key::L,
            38 => Key::Semicolon,
            39 => Key::Apostrophe,
            40 => Key::Grave,
            41 => Key::LeftShift,
            42 => Key::Backslash,
            43 => Key::Z,
            44 => Key::X,
            45 => Key::C,
            46 => Key::V,
            47 => Key::B,
            48 => Key::N,
            49 => Key::M,
            50 => Key::Comma,
            51 => Key::Dot,
            52 => Key::Slash,
            53 => Key::RightShift,
            54 => Key::LeftAlt,
            55 => Key::Space,
            56 => Key::CapsLock,
            57 => Key::F1,
            58 => Key::F2,
            59 => Key::F3,
            60 => Key::F4,
            61 => Key::F5,
            62 => Key::F6,
            63 => Key::F7,
            64 => Key::F8,
            65 => Key::F9,
            66 => Key::F10,
            67 => Key::F11,
            68 => Key::F12,
            69 => Key::RightCtrl,
            70 => Key::RightAlt,
            71 => Key::Home,
            72 => Key::Up,
            73 => Key::PageUp,
            74 => Key::Left,
            75 => Key::Right,
            76 => Key::End,
            77 => Key::Down,
            78 => Key::PageDown,
            79 => Key::Insert,
            80 => Key::Delete,
            81 => Key::LeftMeta,
            82 => Key::RightMeta,
            _ => Key::Escape,
        }
    }
    /// The value at position `i` of the declaration order, if there is one.
    pub fn from_code(i: u16) -> (r: Option<Key>)
        ensures
            i < 83 ==> r == Some(Key::spec_from_code(i)),
            i >= 83 ==> r is None,
    {
        match i {
            0 => Some(Key::Escape),
            1 => Some(Key::Num1),
            2 => Some(Key::Num2),
            3 => Some(Key::Num3),
            4 => Some(Key::Num4),
            5 => Some(Key::Num5),
            6 => Some(Key::Num6),
            7 => Some(Key::Num7),
            8 => Some(Key::Num8),
            9 => Some(Key::Num9),
            10 => Some(Key::Num0),
            11 => Some(Key::Minus),
            12 => Some(Key::Equal),
            13 => Some(Key::Backspace),
            14 => Some(Key::Tab),
            15 => Some(Key::Q),
            16 => Some(Key::W),
            17 => Some(Key::E),
            18 => Some(Key::R),
            19 => Some(Key::T),
            20 => Some(Key::Y),
            21 => Some(Key::U),
            22 => Some(Key::I),
            23 => Some(Key::O),
            24 => Some(Key::P),
            25 => Some(Key::LeftBrace),
            26 => Some(Key::RightBrace),
            27 => Some(Key::Enter),
            28 => Some(Key::LeftCtrl),
            29 => Some(Key::A),
            30 => Some(Key::S),
            31 => Some(Key::D),
            32 => Some(Key::F),
            33 => Some(Key::G),
            34 => Some(Key::H),
            35 => Some(Key::J),
            36 => Some(Key::K),
            37 => Some(Key::L),
            38 => Some(Key::Semicolon),
            39 => Some(Key::Apostrophe),
            40 => Some(Key::Grave),
            41 => Some(Key::LeftShift),
            42 => Some(Key::Backslash),
            43 => Some(Key::Z),
            44 => Some(Key::X),
            45 => Some(Key::C),
            46 => Some(Key::V),
            47 => Some(Key::B),
            48 => Some(Key::N),
            49 => Some(Key::M),
            50 => Some(Key::Comma),
            51 => Some(Key::Dot),
            52 => Some(Key::Slash),
            53 => Some(Key::RightShift),
            54 => Some(Key::LeftAlt),
            55 => Some(Key::Space),
            56 => Some(Key::CapsLock),
            57 => Some(Key::F1),
            58 => Some(Key::F2),
            59 => Some(Key::F3),
            60 => Some(Key::F4),
            61 => Some(Key::F5),
            62 => Some(Key::F6),
            63 => Some(Key::F7),
            64 => Some(Key::F8),
            65 => Some(Key::F9),
            66 => Some(Key::F10),
            67 => Some(Key::F11),
            68 => Some(Key::F12),
            69 => Some(Key::RightCtrl),
            70 => Some(Key::RightAlt),
            71 => Some(Key::Home),
            72 => Some(Key::Up),
            73 => Some(Key::PageUp),
            74 => Some(Key::Left),
            75 => Some(Key::Right),
            76 => Some(Key::End),
            77 => Some(Key::Down),
            78 => Some(Key::PageDown),
            79 => Some(Key::Insert),
            80 => Some(Key::Delete),
            81 => Some(Key::LeftMeta),
            82 => Some(Key::RightMeta),
            _ => None,
        }
    }
}

impl Coded for Key {
    open spec fn spec_code(self) -> u16 {
        match self {
            Key::Escape => 0,
            Key::Num1 => 1,
            Key::Num2 => 2,
            Key::Num3 => 3,
            Key::Num4 => 4,
            Key::Num5 => 5,
            Key::Num6 => 6,
            Key::Num7 => 7,
            Key::Num8 => 8,
            Key::Num9 => 9,
            Key::Num0 => 10,
            Key::Minus => 11,
            Key::Equal => 12,
            Key::Backspace => 13,
            Key::Tab => 14,
            Key::Q => 15,
            Key::W => 16,
            Key::E => 17,
            Key::R => 18,
            Key::T => 19,
            Key::Y => 20,
            Key::U => 21,
            Key::I => 22,
            Key::O => 23,
            Key::P => 24,
            Key::LeftBrace => 25,
            Key::RightBrace => 26,
            Key::Enter => 27,
            Key::LeftCtrl => 28,
            Key::A => 29,
            Key::S => 30,
            Key::D => 31,
            Key::F => 32,
            Key::G => 33,
            Key::H => 34,
            Key::J => 35,
            Key::K => 36,
            Key::L => 37,
            Key::Semicolon => 38,
            Key::Apostrophe => 39,
            Key::Grave => 40,
            Key::LeftShift => 41,
            Key::Backslash => 42,
            Key::Z => 43,
            Key::X => 44,
            Key::C => 45,
            Key::V => 46,
            Key::B => 47,
            Key::N => 48,
            Key::M => 49,
            Key::Comma => 50,
            Key::Dot => 51,
            Key::Slash => 52,
            Key::RightShift => 53,
            Key::LeftAlt => 54,
            Key::Space => 55,
            Key::CapsLock => 56,
            Key::F1 => 57,
            Key::F2 => 58,
            Key::F3 => 59,
            Key::F4 => 60,
            Key::F5 => 61,
            Key::F6 => 62,
            Key::F7 => 63,
            Key::F8 => 64,
            Key::F9 => 65,
            Key::F10 => 66,
            Key::F11 => 67,
            Key::F12 => 68,
            Key::RightCtrl => 69,
            Key::RightAlt => 70,
            Key::Home => 71,
            Key::Up => 72,
            Key::PageUp => 73,
            Key::Left => 74,
            Key::Right => 75,
            Key::End => 76,
            Key::Down => 77,
            Key::PageDown => 78,
            Key::Insert => 79,
            Key::Delete => 80,
            Key::LeftMeta => 81,
            Key::RightMeta => 82,
        }
    }

    fn code(&self) -> (c: u16) {
        match self {
            Key::Escape => 0,
            Key::Num1 => 1,
            Key::Num2 => 2,
            Key::Num3 => 3,
            Key::Num4 => 4,
            Key::Num5 => 5,
            Key::Num6 => 6,
            Key::Num7 => 7,
            Key::Num8 => 8,
            Key::Num9 => 9,
            Key::Num0 => 10,
            Key::Minus => 11,
            Key::Equal => 12,
            Key::Backspace => 13,
            Key::Tab => 14,
            Key::Q => 15,
            Key::W => 16,
            Key::E => 17,
            Key::R => 18,
            Key::T => 19,
            Key::Y => 20,
            Key::U => 21,
            Key::I => 22,
            Key::O => 23,
            Key::P => 24,
            Key::LeftBrace => 25,
            Key::RightBrace => 26,
            Key::Enter => 27,
            Key::LeftCtrl => 28,
            Key::A => 29,
            Key::S => 30,
            Key::D => 31,
            Key::F => 32,
            Key::G => 33,
            Key::H => 34,
            Key::J => 35,
            Key::K => 36,
            Key::L => 37,
            Key::Semicolon => 38,
            Key::Apostrophe => 39,
            Key::Grave => 40,
            Key::LeftShift => 41,
            Key::Backslash => 42,
            Key::Z => 43,
            Key::X => 44,
            Key::C => 45,
            Key::V => 46,
            Key::B => 47,
            Key::N => 48,
            Key::M => 49,
            Key::Comma => 50,
            Key::Dot => 51,
            Key::Slash => 52,
            Key::RightShift => 53,
            Key::LeftAlt => 54,
            Key::Space => 55,
            Key::CapsLock => 56,
            Key::F1 => 57,
            Key::F2 => 58,
            Key::F3 => 59,
            Key::F4 => 60,
            Key::F5 => 61,
            Key::F6 => 62,
            Key::F7 => 63,
            Key::F8 => 64,
            Key::F9 => 65,
            Key::F10 => 66,
            Key::F11 => 67,
            Key::F12 => 68,
            Key::RightCtrl => 69,
            Key::RightAlt => 70,
            Key::Home => 71,
            Key::Up => 72,
            Key::PageUp => 73,
            Key::Left => 74,
            Key::Right => 75,
            Key::End => 76,
            Key::Down => 77,
            Key::PageDown => 78,
            Key::Insert => 79,
            Key::Delete => 80,
            Key::LeftMeta => 81,
            Key::RightMeta => 82,
        }
    }

    proof fn lemma_code_injective(a: Self, b: Self) {
        assert(forall|x: Key| #[trigger] Key::spec_from_code(x.spec_code()) == x);
        assert(Key::spec_from_code(a.spec_code()) == a);
        assert(Key::spec_from_code(b.spec_code()) == b);
    }
}

/// A mouse button. The `Scroll*` pseudo-buttons are wheel impulses: a press is one notch.
#[derive(Debug, Clone, Copy, PartialEq, Eq, PartialOrd, Ord, Hash, Structural)]
pub enum MouseButton {
    Left,
    Right,
    Middle,
    Side,
    Extra,
    ScrollUp,
    ScrollDown,
    ScrollLeft,
    ScrollRight,
}

impl MouseButton {
    /// Position in declaration order.
    pub open spec fn spec_from_code(i: u16) -> MouseButton {
        match i {
            0 => MouseButton::Left,
            1 => MouseButton::Right,
            2 => MouseButton::Middle,
            3 => MouseButton::Side,
            4 => MouseButton::Extra,
            5 => MouseButton::ScrollUp,
            6 => MouseButton::ScrollDown,
            7 => MouseButton::ScrollLeft,
            8 => MouseButton::ScrollRight,
            _ => MouseButton::Left,
        }
    }
    /// The value at position `i` of the declaration order, if there is one.
    pub fn from_code(i: u16) -> (r: Option<MouseButton>)
        ensures
            i < 9 ==> r == Some(MouseButton::spec_from_code(i)),
            i >= 9 ==> r is None,
    {
        match i {
            0 => Some(MouseButton::Left),
            1 => Some(MouseButton::Right),
            2 => Some(MouseButton::Middle),
            3 => Some(MouseButton::Side),
            4 => Some(MouseButton::Extra),
            5 => Some(MouseButton::ScrollUp),
            6 => Some(MouseButton::ScrollDown),
            7 => Some(MouseButton::ScrollLeft),
            8 => Some(MouseButton::ScrollRight),
            _ => None,
        }
    }
}

impl Coded for MouseButton {
    open spec fn spec_code(self) -> u16 {
        match self {
            MouseButton::Left => 0,
            MouseButton::Right => 1,
            MouseButton::Middle => 2,
            MouseButton::Side => 3,
            MouseButton::Extra => 4,
            MouseButton::ScrollUp => 5,
            MouseButton::ScrollDown => 6,
            MouseButton::ScrollLeft => 7,
            MouseButton::ScrollRight => 8,
        }
    }

    fn code(&self) -> (c: u16) {
        match self {
            MouseButton::Left => 0,
            MouseButton::Right => 1,
            MouseButton::Middle => 2,
            MouseButton::Side => 3,
            MouseButton::Extra => 4,
            MouseButton::ScrollUp => 5,
            MouseButton::ScrollDown => 6,
            MouseButton::ScrollLeft => 7,
            MouseButton::ScrollRight => 8,
        }
    }

    proof fn lemma_code_injective(a: Self, b: Self) {
        assert(forall|x: MouseButton| #[trigger] MouseButton::spec_from_code(x.spec_code()) == x);
        assert(MouseButton::spec_from_code(a.spec_code()) == a);
        assert(MouseButton::spec_from_code(b.spec_code()) == b);
    }
}

/// A virtual gamepad button.
#[derive(Debug, Clone, Copy, PartialEq, Eq, PartialOrd, Ord, Hash, Structural)]
pub enum GamepadButton {
    A,
    B,
    X,
    Y,
    LeftBumper,
    RightBumper,
    LeftStick,
    RightStick,
    Start,
    Select,
    Guide,
    DPadUp,
    DPadDown,
    DPadLeft,
    DPadRight,
}

impl GamepadButton {
    /// Position in declaration order.
    pub open spec fn spec_from_code(i: u16) -> GamepadButton {
        match i {
            0 => GamepadButton::A,
            1 => GamepadButton::B,
            2 => GamepadButton::X,
            3 => GamepadButton::Y,
            4 => GamepadButton::LeftBumper,
            5 => GamepadButton::RightBumper,
            6 => GamepadButton::LeftStick,
            7 => GamepadButton::RightStick,
            8 => GamepadButton::Start,
            9 => GamepadButton::Select,
            10 => GamepadButton::Guide,
            11 => GamepadButton::DPadUp,
            12 => GamepadButton::DPadDown,
            13 => GamepadButton::DPadLeft,
            14 => GamepadButton::DPadRight,
            _ => GamepadButton::A,
        }
    }
    /// The value at position `i` of the declaration order, if there is one.
    pub fn from_code(i: u16) -> (r: Option<GamepadButton>)
        ensures
            i < 15 ==> r == Some(GamepadButton::spec_from_code(i)),
            i >= 15 ==> r is None,
    {
        match i {
            0 => Some(GamepadButton::A),
            1 => Some(GamepadButton::B),
            2 => Some(GamepadButton::X),
            3 => Some(GamepadButton::Y),
            4 => Some(GamepadButton::LeftBumper),
            5 => Some(GamepadButton::RightBumper),
            6 => Some(GamepadButton::LeftStick),
            7 => Some(GamepadButton::RightStick),
            8 => Some(GamepadButton::Start),
            9 => Some(GamepadButton::Select),
            10 => Some(GamepadButton::Guide),
            11 => Some(GamepadButton::DPadUp),
            12 => Some(GamepadButton::DPadDown),
            13 => Some(GamepadButton::DPadLeft),
            14 => Some(GamepadButton::DPadRight),
            _ => None,
        }
    }
}

impl Coded for GamepadButton {
    open spec fn spec_code(self) -> u16 {
        match self {
            GamepadButton::A => 0,
            GamepadButton::B => 1,
            GamepadButton::X => 2,
            GamepadButton::Y => 3,
            GamepadButton::LeftBumper => 4,
            GamepadButton::RightBumper => 5,
            GamepadButton::LeftStick => 6,
            GamepadButton::RightStick => 7,
            GamepadButton::Start => 8,
            GamepadButton::Select => 9,
            GamepadButton::Guide => 10,
            GamepadButton::DPadUp => 11,
            GamepadButton::DPadDown => 12,
            GamepadButton::DPadLeft => 13,
            GamepadButton::DPadRight => 14,
        }
    }

    fn code(&self) -> (c: u16) {
        match self {
            GamepadButton::A => 0,
            GamepadButton::B => 1,
            GamepadButton::X => 2,
            GamepadButton::Y => 3,
            GamepadButton::LeftBumper => 4,
            GamepadButton::RightBumper => 5,
            GamepadButton::LeftStick => 6,
            GamepadButton::RightStick => 7,
            GamepadButton::Start => 8,
            GamepadButton::Select => 9,
            GamepadButton::Guide => 10,
            GamepadButton::DPadUp => 11,
            GamepadButton::DPadDown => 12,
            GamepadButton::DPadLeft => 13,
            GamepadButton::DPadRight => 14,
        }
    }

    proof fn lemma_code_injective(a: Self, b: Self) {
        assert(forall|x: GamepadButton| #[trigger] GamepadButton::spec_from_code(x.spec_code()) == x);
        assert(GamepadButton::spec_from_code(a.spec_code()) == a);
        assert(GamepadButton::spec_from_code(b.spec_code()) == b);
    }
}

/// A logical controller input a profile binds (a button, a button group, a stick, a pad,
/// a trigger, or the gyro). The declaration order is the binding-evaluation order.
#[derive(Debug, Clone, Copy, PartialEq, Eq, PartialOrd, Ord, Hash, Structural)]
pub enum InputSource {
    LeftBumper,
    RightBumper,
    LeftTrigger,
    RightTrigger,
    LeftTriggerFull,
    RightTriggerFull,
    LeftGrip,
    RightGrip,
    LeftGrip2,
    RightGrip2,
    LeftGripTouch,
    RightGripTouch,
    View,
    Menu,
    Steam,
    QuickAccess,
    FaceButtons,
    DPad,
    LeftStick,
    RightStick,
    LeftStickClick,
    RightStickClick,
    LeftStickTouch,
    RightStickTouch,
    LeftPad,
    RightPad,
    LeftPadClick,
    RightPadClick,
    LeftPadTouch,
    RightPadTouch,
    Gyro,
}

impl InputSource {
    /// Position in declaration order.
    pub open spec fn spec_code(self) -> u8 {
        match self {
            InputSource::LeftBumper => 0,
            InputSource::RightBumper => 1,
            InputSource::LeftTrigger => 2,
            InputSource::RightTrigger => 3,
            InputSource::LeftTriggerFull => 4,
            InputSource::RightTriggerFull => 5,
            InputSource::LeftGrip => 6,
            InputSource::RightGrip => 7,
            InputSource::LeftGrip2 => 8,
            InputSource::RightGrip2 => 9,
            InputSource::LeftGripTouch => 10,
            InputSource::RightGripTouch => 11,
            InputSource::View => 12,
            InputSource::Menu => 13,
            InputSource::Steam => 14,
            InputSource::QuickAccess => 15,
            InputSource::FaceButtons => 16,
            InputSource::DPad => 17,
            InputSource::LeftStick => 18,
            InputSource::RightStick => 19,
            InputSource::LeftStickClick => 20,
            InputSource::RightStickClick => 21,
            InputSource::LeftStickTouch => 22,
            InputSource::RightStickTouch => 23,
            InputSource::LeftPad => 24,
            InputSource::RightPad => 25,
            InputSource::LeftPadClick => 26,
            InputSource::RightPadClick => 27,
            InputSource::LeftPadTouch => 28,
            InputSource::RightPadTouch => 29,
            InputSource::Gyro => 30,
        }
    }

    pub open spec fn spec_from_code(i: u8) -> InputSource {
        match i {
            0 => InputSource::LeftBumper,
            1 => InputSource::RightBumper,
            2 => InputSource::LeftTrigger,
            3 => InputSource::RightTrigger,
            4 => InputSource::LeftTriggerFull,
            5 => InputSource::RightTriggerFull,
            6 => InputSource::LeftGrip,
            7 => InputSource::RightGrip,
            8 => InputSource::LeftGrip2,
            9 => InputSource::RightGrip2,
            10 => InputSource::LeftGripTouch,
            11 => InputSource::RightGripTouch,
            12 => InputSource::View,
            13 => InputSource::Menu,
            14 => InputSource::Steam,
            15 => InputSource::QuickAccess,
            16 => InputSource::FaceButtons,
            17 => InputSource::DPad,
            18 => InputSource::LeftStick,
            19 => InputSource::RightStick,
            20 => InputSource::LeftStickClick,
            21 => InputSource::RightStickClick,
            22 => InputSource::LeftStickTouch,
            23 => InputSource::RightStickTouch,
            24 => InputSource::LeftPad,
            25 => InputSource::RightPad,
            26 => InputSource::LeftPadClick,
            27 => InputSource::RightPadClick,
            28 => InputSource::LeftPadTouch,
            29 => InputSource::RightPadTouch,
            30 => InputSource::Gyro,
            _ => InputSource::LeftBumper,
        }
    }

    /// Position in declaration order.
    pub fn code(&self) -> (i: u8)
        ensures
            i == self.spec_code(),
            i < 31,
    {
        match self {
            InputSource::LeftBumper => 0,
            InputSource::RightBumper => 1,
            InputSource::LeftTrigger => 2,
            InputSource::RightTrigger => 3,
            InputSource::LeftTriggerFull => 4,
            InputSource::RightTriggerFull => 5,
            InputSource::LeftGrip => 6,
            InputSource::RightGrip => 7,
            InputSource::LeftGrip2 => 8,
            InputSource::RightGrip2 => 9,
            InputSource::LeftGripTouch => 10,
            InputSource::RightGripTouch => 11,
            InputSource::View => 12,
            InputSource::Menu => 13,
            InputSource::Steam => 14,
            InputSource::QuickAccess => 15,
            InputSource::FaceButtons => 16,
            InputSource::DPad => 17,
            InputSource::LeftStick => 18,
            InputSource::RightStick => 19,
            InputSource::LeftStickClick => 20,
            InputSource::RightStickClick => 21,
            InputSource::LeftStickTouch => 22,
            InputSource::RightStickTouch => 23,
            InputSource::LeftPad => 24,
            InputSource::RightPad => 25,
            InputSource::LeftPadClick => 26,
            InputSource::RightPadClick => 27,
            InputSource::LeftPadTouch => 28,
            InputSource::RightPadTouch => 29,
            InputSource::Gyro => 30,
        }
    }

    /// The source at position `i` of the declaration order.
    pub fn from_code(i: u8) -> (s: InputSource)
        requires
            i < 31,
        ensures
            s == InputSource::spec_from_code(i),
            s.spec_code() == i,
    {
        match i {
            0 => InputSource::LeftBumper,
            1 => InputSource::RightBumper,
            2 => InputSource::LeftTrigger,
            3 => InputSource::RightTrigger,
            4 => InputSource::LeftTriggerFull,
            5 => InputSource::RightTriggerFull,
            6 => InputSource::LeftGrip,
            7 => InputSource::RightGrip,
            8 => InputSource::LeftGrip2,
            9 => InputSource::RightGrip2,
            10 => InputSource::LeftGripTouch,
            11 => InputSource::RightGripTouch,
            12 => InputSource::View,
            13 => InputSource::Menu,
            14 => InputSource::Steam,
            15 => InputSource::QuickAccess,
            16 => InputSource::FaceButtons,
            17 => InputSource::DPad,
            18 => InputSource::LeftStick,
            19 => InputSource::RightStick,
            20 => InputSource::LeftStickClick,
            21 => InputSource::RightStickClick,
            22 => InputSource::LeftStickTouch,
            23 => InputSource::RightStickTouch,
            24 => InputSource::LeftPad,
            25 => InputSource::RightPad,
            26 => InputSource::LeftPadClick,
            27 => InputSource::RightPadClick,
            28 => InputSource::LeftPadTouch,
            29 => InputSource::RightPadTouch,
            _ => InputSource::Gyro,
        }
    }

    pub proof fn lemma_code_injective(a: Self, b: Self)
        ensures
            a.spec_code() == b.spec_code() ==> a == b,
            a.spec_code() < 31,
    {
        assert(forall|x: InputSource| #[trigger] InputSource::spec_from_code(x.spec_code()) == x);
        assert(InputSource::spec_from_code(a.spec_code()) == a);
        assert(InputSource::spec_from_code(b.spec_code()) == b);
    }
}

/// A raw controller button: one bit of the unified button state.
#[derive(Debug, Clone, Copy, PartialEq, Eq, PartialOrd, Ord, Hash, Structural)]
pub enum Button {
    Y,
    A,
    X,
    B,
    DPadUp,
    DPadDown,
    DPadLeft,
    DPadRight,
    LB,
    RB,
    LT,
    RT,
    LGrip,
    RGrip,
    LGrip2,
    RGrip2,
    View,
    Menu,
    Steam,
    QuickAccess,
    LStickPress,
    RStickPress,
    LStickTouch,
    RStickTouch,
    LPadPress,
    RPadPress,
    LPadTouch,
    RPadTouch,
    LGripTouch,
    RGripTouch,
}

impl Button {
    /// Position in declaration order.
    pub open spec fn spec_bit(self) -> u8 {
        match self {
            Button::Y => 0,
            Button::A => 1,
            Button::X => 2,
            Button::B => 3,
            Button::DPadUp => 4,
            Button::DPadDown => 5,
            Button::DPadLeft => 6,
            Button::DPadRight => 7,
            Button::LB => 8,
            Button::RB => 9,
            Button::LT => 10,
            Button::RT => 11,
            Button::LGrip => 12,
            Button::RGrip => 13,
            Button::LGrip2 => 14,
            Button::RGrip2 => 15,
            Button::View => 16,
            Button::Menu => 17,
            Button::Steam => 18,
            Button::QuickAccess => 19,
            Button::LStickPress => 20,
            Button::RStickPress => 21,
            Button::LStickTouch => 22,
            Button::RStickTouch => 23,
            Button::LPadPress => 24,
            Button::RPadPress => 25,
            Button::LPadTouch => 26,
            Button::RPadTouch => 27,
            Button::LGripTouch => 28,
            Button::RGripTouch => 29,
        }
    }

    pub open spec fn spec_from_bit(i: u8) -> Button {
        match i {
            0 => Button::Y,
            1 => Button::A,
            2 => Button::X,
            3 => Button::B,
            4 => Button::DPadUp,
            5 => Button::DPadDown,
            6 => Button::DPadLeft,
            7 => Button::DPadRight,
            8 => Button::LB,
            9 => Button::RB,
            10 => Button::LT,
            11 => Button::RT,
            12 => Button::LGrip,
            13 => Button::RGrip,
            14 => Button::LGrip2,
            15 => Button::RGrip2,
            16 => Button::View,
            17 => Button::Menu,
            18 => Button::Steam,
            19 => Button::QuickAccess,
            20 => Button::LStickPress,
            21 => Button::RStickPress,
            22 => Button::LStickTouch,
            23 => Button::RStickTouch,
            24 => Button::LPadPress,
            25 => Button::RPadPress,
            26 => Button::LPadTouch,
            27 => Button::RPadTouch,
            28 => Button::LGripTouch,
            29 => Button::RGripTouch,
            _ => Button::Y,
        }
    }

    /// The button on bit `i`, if there is one.
    pub fn from_bit(i: u8) -> (r: Option<Button>)
        ensures
            i < 30 ==> r == Some(Button::spec_from_bit(i)),
            i >= 30 ==> r is None,
    {
        match i {
            0 => Some(Button::Y),
            1 => Some(Button::A),
            2 => Some(Button::X),
            3 => Some(Button::B),
            4 => Some(Button::DPadUp),
            5 => Some(Button::DPadDown),
            6 => Some(Button::DPadLeft),
            7 => Some(Button::DPadRight),
            8 => Some(Button::LB),
            9 => Some(Button::RB),
            10 => Some(Button::LT),
            11 => Some(Button::RT),
            12 => Some(Button::LGrip),
            13 => Some(Button::RGrip),
            14 => Some(Button::LGrip2),
            15 => Some(Button::RGrip2),
            16 => Some(Button::View),
            17 => Some(Button::Menu),
            18 => Some(Button::Steam),
            19 => Some(Button::QuickAccess),
            20 => Some(Button::LStickPress),
            21 => Some(Button::RStickPress),
            22 => Some(Button::LStickTouch),
            23 => Some(Button::RStickTouch),
            24 => Some(Button::LPadPress),
            25 => Some(Button::RPadPress),
            26 => Some(Button::LPadTouch),
            27 => Some(Button::RPadTouch),
            28 => Some(Button::LGripTouch),
            29 => Some(Button::RGripTouch),
            _ => None,
        }
    }

    /// Position in declaration order.
    pub fn bit(&self) -> (i: u8)
        ensures
            i == self.spec_bit(),
            i < 30,
    {
        match self {
            Button::Y => 0,
            Button::A => 1,
            Button::X => 2,
            Button::B => 3,
            Button::DPadUp => 4,
            Button::DPadDown => 5,
            Button::DPadLeft => 6,
            Button::DPadRight => 7,
            Button::LB => 8,
            Button::RB => 9,
            Button::LT => 10,
            Button::RT => 11,
            Button::LGrip => 12,
            Button::RGrip => 13,
            Button::LGrip2 => 14,
            Button::RGrip2 => 15,
            Button::View => 16,
            Button::Menu => 17,
            Button::Steam => 18,
            Button::QuickAccess => 19,
            Button::LStickPress => 20,
            Button::RStickPress => 21,
            Button::LStickTouch => 22,
            Button::RStickTouch => 23,
            Button::LPadPress => 24,
            Button::RPadPress => 25,
            Button::LPadTouch => 26,
            Button::RPadTouch => 27,
            Button::LGripTouch => 28,
            Button::RGripTouch => 29,
        }
    }

    pub proof fn lemma_bit_injective(a: Self, b: Self)
        ensures
            a.spec_bit() == b.spec_bit() ==> a == b,
            a.spec_bit() < 30,
    {
        assert(forall|x: Button| #[trigger] Button::spec_from_bit(x.spec_bit()) == x);
        assert(Button::spec_from_bit(a.spec_bit()) == a);
        assert(Button::spec_from_bit(b.spec_bit()) == b);
    }
}

/// Number of [`InputSource`] values.
pub const N_SOURCES: usize = 31;

impl MouseButton {
    /// Whether this is a scroll pseudo-button (a wheel impulse rather than a held level).
    pub fn is_scroll(&self) -> (b: bool)
        ensures
            b == (*self == MouseButton::ScrollUp || *self == MouseButton::ScrollDown
                || *self == MouseButton::ScrollLeft || *self == MouseButton::ScrollRight),
    {
        match self {
            MouseButton::ScrollUp | MouseButton::ScrollDown | MouseButton::ScrollLeft
            | MouseButton::ScrollRight => true,
            _ => false,
        }
    }
}


/// A side of the controller: which haptic actuator a command-haptic pulse targets.
#[derive(Debug, Clone, Copy, PartialEq, Eq, Hash, Structural)]
pub enum Side {
    Left,
    Right,
}

impl InputSource {
    /// The controller side an input sits on.
    pub open spec fn spec_side(self) -> Side {
        match self {
            InputSource::LeftBumper | InputSource::LeftTrigger | InputSource::LeftTriggerFull
            | InputSource::LeftGrip | InputSource::LeftGrip2 | InputSource::LeftGripTouch
            | InputSource::View | InputSource::Steam | InputSource::DPad | InputSource::LeftStick
            | InputSource::LeftStickClick | InputSource::LeftStickTouch | InputSource::LeftPad
            | InputSource::LeftPadClick | InputSource::LeftPadTouch => Side::Left,
            _ => Side::Right,
        }
    }

    /// The controller side an input sits on (its command haptics play on that actuator).
    pub fn side(&self) -> (s: Side)
        ensures
            s == self.spec_side(),
    {
        match self {
            InputSource::LeftBumper | InputSource::LeftTrigger | InputSource::LeftTriggerFull
            | InputSource::LeftGrip | InputSource::LeftGrip2 | InputSource::LeftGripTouch
            | InputSource::View | InputSource::Steam | InputSource::DPad | InputSource::LeftStick
            | InputSource::LeftStickClick | InputSource::LeftStickTouch | InputSource::LeftPad
            | InputSource::LeftPadClick | InputSource::LeftPadTouch => Side::Left,
            _ => Side::Right,
        }
    }
}

/// A direction within a directional source (a button group, a dpad, a joystick ring).
#[derive(Debug, Clone, Copy, PartialEq, Eq, Hash, Structural)]
pub enum Dir {
    Up,
    Down,
    Left,
    Right,
}

/// The unified button state: bit `b.bit()` set = raw button `b` held.
#[derive(Debug, Clone, Copy, PartialEq, Eq, Hash, Structural)]
pub struct Buttons(pub u64);

pub open spec fn bit_set(mask: u64, i: u64) -> bool {
    (mask >> i) & 1u64 == 1u64
}

proof fn lemma_test_bit(mask: u64, i: u64)
    requires
        i < 64,
    ensures
        (mask & (1u64 << i) != 0u64) == bit_set(mask, i),
{
    assert((mask & (1u64 << i) != 0u64) == ((mask >> i) & 1u64 == 1u64)) by (bit_vector)
        requires
            i < 64,
    ;
}

proof fn lemma_set_bit(mask: u64, i: u64, j: u64)
    requires
        i < 64,
        j < 64,
    ensures
        bit_set(mask | (1u64 << i), j) == (j == i || bit_set(mask, j)),
{
    assert((((mask | (1u64 << i)) >> j) & 1u64 == 1u64) == (j == i || (mask >> j) & 1u64
        == 1u64)) by (bit_vector)
        requires
            i < 64,
            j < 64,
    ;
}

proof fn lemma_clear_bit(mask: u64, i: u64, j: u64)
    requires
        i < 64,
        j < 64,
    ensures
        bit_set(mask & !(1u64 << i), j) == (j != i && bit_set(mask, j)),
{
    assert((((mask & !(1u64 << i)) >> j) & 1u64 == 1u64) == (j != i && (mask >> j) & 1u64
        == 1u64)) by (bit_vector)
        requires
            i < 64,
            j < 64,
    ;
}

proof fn lemma_zero_bits(i: u64)
    requires
        i < 64,
    ensures
        !bit_set(0u64, i),
{
    assert(((0u64 >> i) & 1u64 == 1u64) == false) by (bit_vector);
}

impl Buttons {
    /// Whether raw button `b` is held.
    pub open spec fn has(self, b: Button) -> bool {
        bit_set(self.0, b.spec_bit() as u64)
    }

    /// No button held.
    pub fn empty() -> (r: Buttons)
        ensures
            forall|b: Button| !#[trigger] r.has(b),
    {
        assert forall|b: Button| !#[trigger] Buttons(0).has(b) by {
            Button::lemma_bit_injective(b, b);
            lemma_zero_bits(b.spec_bit() as u64);
        }
        Buttons(0)
    }

    /// Whether raw button `b` is held.
    pub fn contains(&self, b: &Button) -> (r: bool)
        ensures
            r == self.has(*b),
    {
        let i = b.bit();
        proof {
            lemma_test_bit(self.0, i as u64);
        }
        self.0 & (1u64 << i) != 0
    }

    /// This state with `b` held too.
    pub fn with(&self, b: Button) -> (r: Buttons)
        ensures
            forall|c: Button| #[trigger] r.has(c) == (c == b || self.has(c)),
    {
        let i = b.bit();
        let r = Buttons(self.0 | (1u64 << i));
        assert forall|c: Button| #[trigger] r.has(c) == (c == b || self.has(c)) by {
            Button::lemma_bit_injective(c, b);
            lemma_set_bit(self.0, i as u64, c.spec_bit() as u64);
        }
        r
    }

    /// This state with `b` released.
    pub fn without(&self, b: Button) -> (r: Buttons)
        ensures
            forall|c: Button| #[trigger] r.has(c) == (c != b && self.has(c)),
    {
        let i = b.bit();
        let r = Buttons(self.0 & !(1u64 << i));
        assert forall|c: Button| #[trigger] r.has(c) == (c != b && self.has(c)) by {
            Button::lemma_bit_injective(c, b);
            lemma_clear_bit(self.0, i as u64, c.spec_bit() as u64);
        }
        r
    }
}

/// An analog pull (`0.0..=1.0`) carried in the order-preserving bit encoding of a non-negative
/// `f32`: for non-negative values, `a >= b` exactly when `a.to_bits() >= b.to_bits()`.
#[derive(Debug, Clone, Copy, PartialEq, Eq, PartialOrd, Ord, Hash, Structural)]
pub struct Pull(pub u32);

/// The condition under which a command activates.
#[derive(Debug, Clone, Copy, PartialEq, Eq, Hash, Structural)]
pub enum Activator {
    /// Held while the node is held; an interruptible one yields to a `Long`/`Double` on the node.
    Regular { interruptible: bool },
    /// A tap on the press edge.
    Start,
    /// A tap on the release edge.
    Release,
    /// Fires once the node has been held `hold_ms`.
    Long { hold_ms: u32 },
    /// Fires on a second press within `window_ms` of the first press.
    Double { window_ms: u32 },
}

/// Which edges of a command's output fire a command-haptic pulse.
#[derive(Debug, Clone, Copy, PartialEq, Eq, Hash, Structural)]
pub enum HapticEdge {
    Off,
    OnPress,
    OnRelease,
    Both,
}

/// Command-haptic pulse strength.
#[derive(Debug, Clone, Copy, PartialEq, Eq, Hash, Structural)]
pub enum HapticStrength {
    Low,
    Medium,
    High,
}

/// A command's haptic feedback: on which edges, at what strength.
#[derive(Debug, Clone, Copy, PartialEq, Eq, Hash, Structural)]
pub struct Haptics {
    pub on: HapticEdge,
    pub strength: HapticStrength,
}

/// Rapid-fire: a 50%-duty square wave of period `interval_ms` while the command is active.
#[derive(Debug, Clone, Copy, PartialEq, Eq, Hash, Structural)]
pub struct Turbo {
    pub interval_ms: u32,
}

/// Per-command modifiers applied to the resolved activation.
#[derive(Debug, Clone, Copy, PartialEq, Eq, Hash, Structural)]
pub struct CommandSettings {
    pub toggle: bool,
    pub turbo: Option<Turbo>,
    pub haptics: Haptics,
}

impl CommandSettings {
    /// No toggle, no turbo, no haptics (the strength they would have is medium).
    pub fn new() -> (s: CommandSettings)
        ensures
            !s.toggle,
            s.turbo.is_none(),
            s.haptics.on == HapticEdge::Off,
            s.haptics.strength == HapticStrength::Medium,
    {
        CommandSettings {
            toggle: false,
            turbo: None,
            haptics: Haptics { on: HapticEdge::Off, strength: HapticStrength::Medium },
        }
    }
}

} // verus!
