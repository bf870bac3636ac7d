use deckhand::compile::compile;
use deckhand::profile::{Action, ActionSet, Command, ConfigDoc, Layer, Severity, SourceBinding};
use deckhand::program::{AnalogRef, CompiledAction, CompiledBinding, LayerId, Role, SetId, SourceMap};
use deckhand::vocab::{Activator, CommandSettings, GamepadButton, InputSource, Key};

fn press(action: Action) -> Command {
    Command { activator: Activator::Regular { interruptible: false }, actions: vec![action], settings: CommandSettings::new() }
}

fn sample() -> ConfigDoc {
    let mut game = SourceMap::new();
    game.insert(
        InputSource::LeftBumper,
        SourceBinding::Button { commands: vec![press(Action::HoldLayer("aim".into()))] },
    );
    game.insert(
        InputSource::Menu,
        SourceBinding::Button { commands: vec![press(Action::ChangeActionSet("Drive".into()))] },
    );
    game.insert(
        InputSource::FaceButtons,
        SourceBinding::ButtonPad {
            up: vec![press(Action::GamepadButton(GamepadButton::Y))],
            down: vec![press(Action::Key(Key::Space))],
            left: vec![],
            right: vec![],
        },
    );
    let mut aim_bindings = SourceMap::new();
    aim_bindings.insert(InputSource::RightPad, SourceBinding::AsMouse { settings: AnalogRef(0) });
    let aim = Layer { name: "aim".into(), bindings: aim_bindings };
    ConfigDoc {
        version: 0,
        name: "Sample".into(),
        action_sets: vec![
            ActionSet { name: "Game".into(), bindings: game, layers: vec![aim] },
            ActionSet { name: "Drive".into(), bindings: SourceMap::new(), layers: vec![] },
        ],
        rumble: AnalogRef(0),
    }
}

#[test]
fn resolves_names_to_ids() {
    let prog = compile(&sample()).expect("valid");
    assert_eq!(prog.meta.name, "Sample");
    assert_eq!(prog.meta.role, Role::Main);
    assert_eq!(prog.default_set.index(), 0);
    assert_eq!(prog.sets.len(), 2);
    let game = prog.set(&SetId::new(0));
    assert_eq!(game.name, "Game");
    assert_eq!(game.layers.len(), 1);
    let lb = game.base.get(&InputSource::LeftBumper).unwrap();
    match lb {
        CompiledBinding::Button { commands } => {
            assert_eq!(commands[0].actions, vec![CompiledAction::HoldLayer(LayerId::new(0))]);
        }
        _ => panic!("expected Button"),
    }
    let menu = game.base.get(&InputSource::Menu).unwrap();
    match menu {
        CompiledBinding::Button { commands } => {
            assert_eq!(commands[0].actions, vec![CompiledAction::ChangeActionSet(SetId::new(1))]);
        }
        _ => panic!("expected Button"),
    }
    let face = game.base.get(&InputSource::FaceButtons).unwrap();
    assert!(matches!(face, CompiledBinding::ButtonPad { .. }));
}

#[test]
fn dangling_ref_fails_compile() {
    let mut doc = sample();
    doc.action_sets[0].bindings.insert(
        InputSource::LeftBumper,
        SourceBinding::Button { commands: vec![press(Action::HoldLayer("nope".into()))] },
    );
    let err = compile(&doc).unwrap_err();
    assert!(err.iter().any(|d| d.severity == Severity::Error));
}

#[test]
fn every_dangling_ref_gets_a_diagnostic() {
    let mut doc = sample();
    doc.action_sets[1].bindings.insert(
        InputSource::RightBumper,
        SourceBinding::Button {
            commands: vec![press(Action::AddLayer("ghost".into())), press(Action::ChangeActionSet("Nowhere".into()))],
        },
    );
    let err = compile(&doc).unwrap_err();
    assert_eq!(err.len(), 2);
    assert!(err.iter().all(|d| d.severity == Severity::Error));
    assert!(err[0].message.contains("ghost"));
    assert!(err[1].message.contains("Nowhere"));
}

#[test]
fn a_layer_name_resolves_only_within_its_own_set() {
    let mut doc = sample();
    doc.action_sets[1].bindings.insert(
        InputSource::LeftBumper,
        SourceBinding::Button { commands: vec![press(Action::HoldLayer("aim".into()))] },
    );
    assert!(compile(&doc).is_err());
}

#[test]
fn a_repeated_name_refers_to_the_last_so_named() {
    let mut doc = sample();
    doc.action_sets.push(ActionSet { name: "Drive".into(), bindings: SourceMap::new(), layers: vec![] });
    let prog = compile(&doc).expect("valid");
    match prog.sets[0].base.get(&InputSource::Menu).unwrap() {
        CompiledBinding::Button { commands } => {
            assert_eq!(commands[0].actions, vec![CompiledAction::ChangeActionSet(SetId::new(2))]);
        }
        _ => panic!("expected Button"),
    }
}
