use deckhand::logical::{ControllerState, LogicalFrame};
use deckhand::mapper::behavior::VirtualButtons;
use deckhand::mapper::reconcile::OutputEvent;
use deckhand::mapper::{HapticReq, Mapper, Tick};
use deckhand::program::{AnalogRef, CompiledAction, CompiledBinding, CompiledCommand, CompiledSet, Program, ProgramMeta, Role, SetId, SourceMap};
use deckhand::vocab::{Activator, Button, Buttons, CommandSettings, Dir, InputSource, Key, Pull};

fn frame_with(buttons: &[Button]) -> LogicalFrame {
    let mut b = Buttons::empty();
    for x in buttons {
        b = b.with(*x);
    }
    LogicalFrame::new(ControllerState { buttons: b, left_trigger: Pull(0), right_trigger: Pull(0) })
}

#[test]
fn view_menu_naming() {
    let f = frame_with(&[Button::View]);
    assert!(f.button(&InputSource::View));
    assert!(!f.button(&InputSource::Menu));

    let f = frame_with(&[Button::Menu]);
    assert!(f.button(&InputSource::Menu));
    assert!(!f.button(&InputSource::View));
}

#[test]
fn standalone_buttons_and_group_members() {
    let f = frame_with(&[Button::LB, Button::Y, Button::LT]);
    assert!(f.button(&InputSource::LeftBumper));
    assert!(f.button(&InputSource::LeftTriggerFull));
    assert!(!f.button(&InputSource::RightBumper));
    assert!(f.group_member(&InputSource::FaceButtons, &Dir::Up));
    assert!(!f.group_member(&InputSource::FaceButtons, &Dir::Down));
    // A button group is not a standalone button.
    assert!(!f.button(&InputSource::FaceButtons));
}

fn regular(key: Key) -> Vec<CompiledCommand> {
    vec![CompiledCommand {
        activator: Activator::Regular { interruptible: false },
        actions: vec![CompiledAction::Key(key)],
        settings: CommandSettings::new(),
    }]
}

#[test]
fn button_pad_members_fire_by_group_bit() {
    let binding = CompiledBinding::ButtonPad {
        up: regular(Key::W),
        down: regular(Key::S),
        left: regular(Key::A),
        right: regular(Key::D),
    };
    let program = Program {
        meta: ProgramMeta { name: "p".into(), role: Role::Main },
        default_set: SetId::new(0),
        rumble: AnalogRef(0),
        sets: vec![CompiledSet {
            name: "s".into(),
            base: SourceMap::from_pairs(vec![(InputSource::FaceButtons, binding)]),
            layers: vec![],
        }],
    };
    let mut m = Mapper::new(&program);
    let virt: SourceMap<VirtualButtons> = SourceMap::new();
    let mut out: Vec<OutputEvent> = Vec::new();
    let mut haptics: Vec<HapticReq> = Vec::new();
    // FaceButtons: up is the Y bit.
    m.tick(&frame_with(&[Button::Y]), &virt, Tick(0), &program, &mut out, &mut haptics);
    assert_eq!(out, vec![OutputEvent::Key(Key::W, true)]);
}
