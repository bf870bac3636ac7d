use deckhand::chords::{ChordOutcome, Chords, GlobalAction, GlobalChord, SwitchMode};
use deckhand::logical::{ControllerState, LogicalFrame};
use deckhand::program::Role;
use deckhand::vocab::{Button, Buttons, InputSource, Pull};

fn frame(buttons: &[Button]) -> LogicalFrame {
    let mut b = Buttons::empty();
    for x in buttons {
        b = b.with(*x);
    }
    LogicalFrame::new(ControllerState { buttons: b, left_trigger: Pull(0), right_trigger: Pull(0) })
}

fn hold_chord(buttons: Vec<Button>) -> GlobalChord {
    GlobalChord { buttons, action: GlobalAction::SwitchProfile { mode: SwitchMode::HoldFallback } }
}

fn toggle_chord(buttons: Vec<Button>) -> GlobalChord {
    GlobalChord { buttons, action: GlobalAction::SwitchProfile { mode: SwitchMode::Toggle } }
}

fn set_chord(buttons: Vec<Button>, mode: SwitchMode) -> GlobalChord {
    GlobalChord { buttons, action: GlobalAction::SwitchProfile { mode } }
}

fn role(c: &mut Chords, chords: &Vec<GlobalChord>, buttons: &[Button]) -> Role {
    let out: ChordOutcome = c.eval(chords, &frame(buttons));
    out.role
}

#[test]
fn hold_chord_switches_and_consumes_while_held() {
    let chords = vec![hold_chord(vec![Button::Steam, Button::RGrip])];
    let mut c = Chords::new(&chords, false);
    let out = c.eval(&chords, &frame(&[Button::Steam, Button::RGrip]));
    assert_eq!(out.role, Role::Fallback);
    assert!(out.consumed.contains(&Button::Steam) && out.consumed.contains(&Button::RGrip));
    let out = c.eval(&chords, &frame(&[Button::Steam]));
    assert_eq!(out.role, Role::Main);
    assert!(out.consumed.is_empty());
}

#[test]
fn toggle_chord_latches_on_each_engage() {
    let chords = vec![toggle_chord(vec![Button::Steam, Button::RGrip])];
    let mut c = Chords::new(&chords, false);
    let both = [Button::Steam, Button::RGrip];
    assert_eq!(role(&mut c, &chords, &both), Role::Fallback);
    assert_eq!(role(&mut c, &chords, &both), Role::Fallback);
    assert_eq!(role(&mut c, &chords, &[]), Role::Fallback);
    assert_eq!(role(&mut c, &chords, &both), Role::Main);
    assert_eq!(role(&mut c, &chords, &[]), Role::Main);
}

#[test]
fn command_execute_fires_once_on_engage_and_consumes() {
    let chords = vec![GlobalChord {
        buttons: vec![Button::Steam, Button::RGrip],
        action: GlobalAction::CommandExecute { command: "true".into(), args: vec!["x".into()] },
    }];
    let mut c = Chords::new(&chords, false);
    let both = [Button::Steam, Button::RGrip];
    let out = c.eval(&chords, &frame(&both));
    assert_eq!(out.execute.len(), 1);
    assert_eq!((out.execute[0].command.as_str(), out.execute[0].args.as_slice()), ("true", &["x".to_string()][..]));
    assert!(out.consumed.contains(&Button::Steam));
    assert_eq!(out.role, Role::Main);
    assert!(c.eval(&chords, &frame(&both)).execute.is_empty());
    c.eval(&chords, &frame(&[]));
    assert_eq!(c.eval(&chords, &frame(&both)).execute.len(), 1);
}

#[test]
fn set_main_and_set_fallback_latch_specific_roles_on_engage() {
    let to_fb = set_chord(vec![Button::Steam, Button::RGrip], SwitchMode::SetFallback);
    let to_main = set_chord(vec![Button::View, Button::LGrip], SwitchMode::SetMain);
    let chords = vec![to_fb, to_main];
    let mut c = Chords::new(&chords, false);
    let fb = [Button::Steam, Button::RGrip];
    let main = [Button::View, Button::LGrip];
    assert_eq!(role(&mut c, &chords, &fb), Role::Fallback);
    assert_eq!(role(&mut c, &chords, &fb), Role::Fallback);
    assert_eq!(role(&mut c, &chords, &[]), Role::Fallback);
    assert_eq!(role(&mut c, &chords, &fb), Role::Fallback);
    assert_eq!(role(&mut c, &chords, &main), Role::Main);
    assert_eq!(role(&mut c, &chords, &[]), Role::Main);
}

#[test]
fn no_chords_is_always_active() {
    let chords: Vec<GlobalChord> = vec![];
    let mut c = Chords::new(&chords, false);
    let out = c.eval(&chords, &frame(&[Button::Steam, Button::RGrip]));
    assert_eq!(out.role, Role::Main);
    assert!(out.consumed.is_empty());
}

#[test]
fn start_in_fallback_persists_then_toggles() {
    let chords = vec![toggle_chord(vec![Button::Steam, Button::RGrip])];
    let mut c = Chords::new(&chords, true);
    assert_eq!(role(&mut c, &chords, &[]), Role::Fallback);
    assert!(c.fallback_base());
    assert_eq!(role(&mut c, &chords, &[Button::Steam, Button::RGrip]), Role::Main);
    assert!(!c.fallback_base());
}

#[test]
fn start_in_fallback_sticks_even_without_a_chord() {
    let chords: Vec<GlobalChord> = vec![];
    let mut c = Chords::new(&chords, true);
    assert_eq!(role(&mut c, &chords, &[]), Role::Fallback);
}

#[test]
fn consumed_buttons_are_masked_from_the_frame() {
    let f = frame(&[Button::Steam, Button::RGrip, Button::LB]);
    let masked = f.masked(&[Button::Steam, Button::RGrip]);
    assert!(!masked.button_held(&Button::Steam));
    assert!(!masked.button_held(&Button::RGrip));
    assert!(masked.button(&InputSource::LeftBumper));
}

#[test]
fn an_empty_chord_never_fires() {
    let chords = vec![toggle_chord(vec![])];
    let mut c = Chords::new(&chords, false);
    let out = c.eval(&chords, &frame(&[Button::Steam]));
    assert_eq!(out.role, Role::Main);
    assert!(out.consumed.is_empty());
}
