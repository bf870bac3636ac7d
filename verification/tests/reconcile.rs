use deckhand::mapper::reconcile::{AppliedLevels, DesiredLevels, OutputEvent};
use deckhand::vocab::{GamepadButton, Key, MouseButton};

#[test]
fn levels_press_hold_release() {
    let mut applied = AppliedLevels::new();
    let mut out = Vec::new();
    let mut d = DesiredLevels::new();
    d.press_key(Key::A);
    applied.reconcile(&d, &mut out);
    assert_eq!(out, vec![OutputEvent::Key(Key::A, true)]);
    out.clear();
    applied.reconcile(&d, &mut out);
    assert!(out.is_empty());
    out.clear();
    applied.reconcile(&DesiredLevels::new(), &mut out);
    assert_eq!(out, vec![OutputEvent::Key(Key::A, false)]);
}

#[test]
fn swap_emits_release_before_press() {
    let mut applied = AppliedLevels::new();
    let mut out = Vec::new();
    let mut a = DesiredLevels::new();
    a.press_key(Key::A);
    applied.reconcile(&a, &mut out);
    out.clear();
    let mut b = DesiredLevels::new();
    b.press_key(Key::B);
    applied.reconcile(&b, &mut out);
    assert_eq!(out, vec![OutputEvent::Key(Key::A, false), OutputEvent::Key(Key::B, true)]);
}

#[test]
fn reconcile_orders_keys_then_mouse_then_pad_in_code_order() {
    let mut applied = AppliedLevels::new();
    let mut out = Vec::new();
    let mut d = DesiredLevels::new();
    d.press_pad(GamepadButton::A);
    d.press_mouse(MouseButton::Left);
    d.press_key(Key::B);
    d.press_key(Key::A);
    applied.reconcile(&d, &mut out);
    assert_eq!(
        out,
        vec![
            OutputEvent::Key(Key::A, true),
            OutputEvent::Key(Key::B, true),
            OutputEvent::MouseButton(MouseButton::Left, true),
            OutputEvent::GamepadButton(GamepadButton::A, true),
        ]
    );
}

#[test]
fn pressing_twice_holds_once() {
    let mut d = DesiredLevels::new();
    d.press_key(Key::A);
    d.press_key(Key::A);
    let mut applied = AppliedLevels::new();
    let mut out = Vec::new();
    applied.reconcile(&d, &mut out);
    assert_eq!(out, vec![OutputEvent::Key(Key::A, true)]);
}
