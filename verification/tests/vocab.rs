use deckhand::vocab::{Button, Coded, GamepadButton, InputSource, Key, MouseButton};

#[test]
fn codes_name_values_in_declaration_order() {
    assert_eq!(Key::from_code(0), Some(Key::Escape));
    assert_eq!(Key::from_code(Key::RightMeta.code()), Some(Key::RightMeta));
    assert_eq!(Key::from_code(83), None);
    assert_eq!(MouseButton::from_code(0), Some(MouseButton::Left));
    assert_eq!(MouseButton::from_code(9), None);
    assert_eq!(GamepadButton::from_code(GamepadButton::DPadRight.code()), Some(GamepadButton::DPadRight));
    assert_eq!(GamepadButton::from_code(15), None);
    assert_eq!(InputSource::from_code(InputSource::Gyro.code()), InputSource::Gyro);
}

#[test]
fn bits_name_buttons() {
    assert_eq!(Button::from_bit(Button::RGripTouch.bit()), Some(Button::RGripTouch));
    assert_eq!(Button::from_bit(0), Some(Button::Y));
    assert_eq!(Button::from_bit(30), None);
}
