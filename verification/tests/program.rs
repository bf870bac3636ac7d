use deckhand::program::{
    empty_program, CompiledAction, CompiledBinding, CompiledCommand, CompiledLayer, CompiledSet,
    LayerId, Program, ProgramMeta, Role, SetId, SourceMap, AnalogRef,
};
use deckhand::vocab::{Activator, CommandSettings, InputSource};

#[test]
fn ids_round_trip_index() {
    assert_eq!(SetId::new(3).index(), 3);
    assert_eq!(LayerId::new(0).index(), 0);
}

#[test]
fn source_map_lookup_and_default() {
    let mut m: SourceMap<CompiledBinding> = SourceMap::default();
    assert!(m.is_empty());
    m.insert(InputSource::LeftBumper, CompiledBinding::Button { commands: vec![] });
    assert_eq!(m.len(), 1);
    assert!(m.get(&InputSource::LeftBumper).is_some());
    assert!(m.get(&InputSource::RightBumper).is_none());
}

#[test]
fn program_set_and_layer_access() {
    let prog = Program {
        meta: ProgramMeta { name: "p".into(), role: Role::Main },
        default_set: SetId::new(0),
        rumble: AnalogRef(0),
        sets: vec![CompiledSet {
            name: "Game".into(),
            base: SourceMap::from_pairs(vec![(
                InputSource::LeftBumper,
                CompiledBinding::Button {
                    commands: vec![CompiledCommand {
                        activator: Activator::Regular { interruptible: false },
                        actions: vec![CompiledAction::HoldLayer(LayerId::new(0))],
                        settings: CommandSettings::new(),
                    }],
                },
            )]),
            layers: vec![CompiledLayer { name: "aim".into(), bindings: SourceMap::new() }],
        }],
    };
    assert_eq!(prog.set(&prog.default_set).name, "Game");
    assert_eq!(prog.set(&SetId::new(0)).layer(&LayerId::new(0)).name, "aim");
}

#[test]
fn ids_wrap_past_sixteen_bits() {
    assert_eq!(SetId::new(65536 + 7).index(), 7);
    assert_eq!(LayerId::new(65535).index(), 65535);
}

#[test]
fn source_map_keeps_source_order_and_last_insert_wins() {
    let m = SourceMap::from_pairs(vec![
        (InputSource::Menu, 1u8),
        (InputSource::LeftBumper, 2u8),
        (InputSource::Menu, 3u8),
    ]);
    assert_eq!(m.len(), 2);
    assert_eq!(m.get(&InputSource::Menu), Some(&3));
    let order: Vec<InputSource> = m.iter().iter().map(|(s, _)| *s).collect();
    assert_eq!(order, vec![InputSource::LeftBumper, InputSource::Menu]);
}

#[test]
fn empty_program_maps_nothing() {
    let p = empty_program();
    assert_eq!(p.meta.name, "EMPTY_PROFILE");
    assert_eq!(p.sets.len(), 1);
    assert!(p.sets[0].base.is_empty());
}
