use deckhand::logical::{ControllerState, LogicalFrame};
use deckhand::mapper::behavior::VirtualButtons;
use deckhand::mapper::reconcile::OutputEvent;
use deckhand::mapper::{HapticReq, Mapper, Tick};
use deckhand::program::{
    AnalogRef, CompiledAction, CompiledBinding, CompiledCommand, CompiledLayer, CompiledSet,
    LayerId, Program, ProgramMeta, Role, SetId, SourceMap,
};
use deckhand::vocab::{Activator, Button, Buttons, CommandSettings, GamepadButton, InputSource, Key, Pull};

fn regular(actions: Vec<CompiledAction>) -> CompiledCommand {
    CompiledCommand {
        activator: Activator::Regular { interruptible: false },
        actions,
        settings: CommandSettings::new(),
    }
}

fn btn(action: CompiledAction) -> CompiledBinding {
    CompiledBinding::Button { commands: vec![regular(vec![action])] }
}

fn start_btn(action: CompiledAction) -> CompiledBinding {
    CompiledBinding::Button {
        commands: vec![CompiledCommand {
            activator: Activator::Start,
            actions: vec![action],
            settings: CommandSettings::new(),
        }],
    }
}

fn long_cmd(hold_ms: u32, action: CompiledAction) -> CompiledCommand {
    CompiledCommand { activator: Activator::Long { hold_ms }, actions: vec![action], settings: CommandSettings::new() }
}

fn ireg_cmd(action: CompiledAction) -> CompiledCommand {
    CompiledCommand {
        activator: Activator::Regular { interruptible: true },
        actions: vec![action],
        settings: CommandSettings::new(),
    }
}

fn layer(name: &str, bindings: Vec<(InputSource, CompiledBinding)>) -> CompiledLayer {
    CompiledLayer { name: name.into(), bindings: SourceMap::from_pairs(bindings) }
}

fn program_of(sets: Vec<(Vec<(InputSource, CompiledBinding)>, Vec<CompiledLayer>)>) -> Program {
    Program {
        meta: ProgramMeta { name: "test".into(), role: Role::Main },
        default_set: SetId::new(0),
        rumble: AnalogRef(0),
        sets: sets
            .into_iter()
            .enumerate()
            .map(|(i, (base, layers))| CompiledSet {
                name: format!("set{i}"),
                base: SourceMap::from_pairs(base),
                layers,
            })
            .collect(),
    }
}

fn program_with(base: Vec<(InputSource, CompiledBinding)>) -> Program {
    Program {
        meta: ProgramMeta { name: "test".into(), role: Role::Main },
        default_set: SetId::new(0),
        rumble: AnalogRef(0),
        sets: vec![CompiledSet { name: "Game".into(), base: SourceMap::from_pairs(base), layers: Vec::new() }],
    }
}

fn down(events: &[OutputEvent], key: Key) -> bool {
    events.contains(&OutputEvent::Key(key, true))
}

fn frame(buttons: &[Button]) -> LogicalFrame {
    let mut b = Buttons::empty();
    for x in buttons {
        b = b.with(*x);
    }
    LogicalFrame::new(ControllerState { buttons: b, left_trigger: Pull(0), right_trigger: Pull(0) })
}

fn run(mapper: &mut Mapper, program: &Program, f: &LogicalFrame, t: u64) -> Vec<OutputEvent> {
    let mut out = Vec::new();
    let mut haptics: Vec<HapticReq> = Vec::new();
    let virt: SourceMap<VirtualButtons> = SourceMap::new();
    mapper.tick(f, &virt, Tick(t), program, &mut out, &mut haptics);
    assert!(haptics.is_empty(), "no command haptics configured");
    out
}

const LB: Button = Button::LB;
const RB: Button = Button::RB;
const LGRIP: Button = Button::LGrip;
const LGRIP2: Button = Button::LGrip2;
const RGRIP: Button = Button::RGrip;
const MENU: Button = Button::Menu;

#[test]
fn button_maps_to_key_press_and_release() {
    let program = program_with(vec![(
        InputSource::LeftBumper,
        CompiledBinding::Button { commands: vec![regular(vec![CompiledAction::Key(Key::A)])] },
    )]);
    let mut m = Mapper::new(&program);
    let out = run(&mut m, &program, &frame(&[LB]), 0);
    assert_eq!(out, vec![OutputEvent::Key(Key::A, true)]);
    let out = run(&mut m, &program, &frame(&[LB]), 1);
    assert!(out.is_empty());
    let out = run(&mut m, &program, &frame(&[]), 2);
    assert_eq!(out, vec![OutputEvent::Key(Key::A, false)]);
}

#[test]
fn release_all_drops_held_outputs() {
    let program = program_with(vec![(
        InputSource::LeftBumper,
        CompiledBinding::Button { commands: vec![regular(vec![CompiledAction::Key(Key::A)])] },
    )]);
    let mut m = Mapper::new(&program);
    let out = run(&mut m, &program, &frame(&[LB]), 0);
    assert_eq!(out, vec![OutputEvent::Key(Key::A, true)]);
    let mut out = Vec::new();
    m.release_all(&mut out);
    assert_eq!(out, vec![OutputEvent::Key(Key::A, false)]);
    let mut out2 = Vec::new();
    m.release_all(&mut out2);
    assert!(out2.is_empty());
}

#[test]
fn combo_presses_all_actions_while_held() {
    let program = program_with(vec![(
        InputSource::RightBumper,
        CompiledBinding::Button {
            commands: vec![regular(vec![CompiledAction::Key(Key::LeftCtrl), CompiledAction::Key(Key::C)])],
        },
    )]);
    let mut m = Mapper::new(&program);
    let out = run(&mut m, &program, &frame(&[RB]), 0);
    assert_eq!(out.iter().filter(|e| matches!(e, OutputEvent::Key(_, true))).count(), 2);
    assert!(out.contains(&OutputEvent::Key(Key::LeftCtrl, true)));
    assert!(out.contains(&OutputEvent::Key(Key::C, true)));
}

#[test]
fn gamepad_button_binding() {
    let program = program_with(vec![(
        InputSource::LeftGrip,
        CompiledBinding::Button { commands: vec![regular(vec![CompiledAction::GamepadButton(GamepadButton::A)])] },
    )]);
    let mut m = Mapper::new(&program);
    let out = run(&mut m, &program, &frame(&[LGRIP]), 0);
    assert_eq!(out, vec![OutputEvent::GamepadButton(GamepadButton::A, true)]);
}

#[test]
fn long_activator_does_not_fire_on_the_press_tick() {
    let program = program_with(vec![(
        InputSource::LeftBumper,
        CompiledBinding::Button {
            commands: vec![CompiledCommand {
                activator: Activator::Long { hold_ms: 250 },
                actions: vec![CompiledAction::Key(Key::A)],
                settings: CommandSettings::new(),
            }],
        },
    )]);
    let mut m = Mapper::new(&program);
    let out = run(&mut m, &program, &frame(&[LB]), 0);
    assert!(out.is_empty());
}

#[test]
fn activator_state_resets_when_winning_binding_changes() {
    let long = |key: Key| CompiledBinding::Button {
        commands: vec![CompiledCommand {
            activator: Activator::Long { hold_ms: 250 },
            actions: vec![CompiledAction::Key(key)],
            settings: CommandSettings::new(),
        }],
    };
    let program = program_of(vec![(
        vec![(InputSource::LeftBumper, long(Key::A))],
        vec![layer("alt", vec![(InputSource::LeftBumper, long(Key::B))])],
    )]);
    let mut m = Mapper::new(&program);
    let _ = run(&mut m, &program, &frame(&[LB]), 0);
    let out = run(&mut m, &program, &frame(&[LB]), 300);
    assert_eq!(out, vec![OutputEvent::Key(Key::A, true)]);
    m.force_layer(LayerId::new(0));
    let out = run(&mut m, &program, &frame(&[LB]), 320);
    assert_eq!(out, vec![OutputEvent::Key(Key::A, false)]);
    let out = run(&mut m, &program, &frame(&[LB]), 600);
    assert_eq!(out, vec![OutputEvent::Key(Key::B, true)]);
}

#[test]
fn layer_binding_wins_over_base() {
    let program = program_of(vec![(
        vec![(InputSource::LeftBumper, btn(CompiledAction::Key(Key::A)))],
        vec![layer("alt", vec![(InputSource::LeftBumper, btn(CompiledAction::Key(Key::B)))])],
    )]);
    let mut m = Mapper::new(&program);
    let out = run(&mut m, &program, &frame(&[LB]), 0);
    assert_eq!(out, vec![OutputEvent::Key(Key::A, true)]);
    let _ = run(&mut m, &program, &frame(&[]), 1);
    m.force_layer(LayerId::new(0));
    let out = run(&mut m, &program, &frame(&[LB]), 2);
    assert_eq!(out, vec![OutputEvent::Key(Key::B, true)]);
}

#[test]
fn switch_program_releases_old_outputs_and_applies_new() {
    let prog_a = program_with(vec![(InputSource::LeftBumper, btn(CompiledAction::Key(Key::A)))]);
    let prog_b = program_with(vec![(InputSource::LeftBumper, btn(CompiledAction::Key(Key::B)))]);
    let mut m = Mapper::new(&prog_a);
    let out = run(&mut m, &prog_a, &frame(&[LB]), 0);
    assert_eq!(out, vec![OutputEvent::Key(Key::A, true)]);
    m.switch_program(&prog_b);
    let out = run(&mut m, &prog_b, &frame(&[LB]), 4);
    assert!(down(&out, Key::B) && out.contains(&OutputEvent::Key(Key::A, false)));
}

#[test]
fn hold_layer_activates_next_tick_and_releases_on_node_release() {
    let program = program_of(vec![(
        vec![(InputSource::LeftGrip, btn(CompiledAction::HoldLayer(LayerId::new(0))))],
        vec![layer("aim", vec![(InputSource::LeftBumper, btn(CompiledAction::Key(Key::A)))])],
    )]);
    let mut m = Mapper::new(&program);
    let out = run(&mut m, &program, &frame(&[LGRIP, LB]), 0);
    assert!(out.is_empty());
    let out = run(&mut m, &program, &frame(&[LGRIP, LB]), 4);
    assert_eq!(out, vec![OutputEvent::Key(Key::A, true)]);
    let _ = run(&mut m, &program, &frame(&[LB]), 8);
    let out = run(&mut m, &program, &frame(&[LB]), 12);
    assert_eq!(out, vec![OutputEvent::Key(Key::A, false)]);
}

#[test]
fn hold_layer_survives_self_shadowing() {
    let program = program_of(vec![(
        vec![(InputSource::LeftBumper, btn(CompiledAction::HoldLayer(LayerId::new(0))))],
        vec![layer("aim", vec![(InputSource::LeftBumper, btn(CompiledAction::Key(Key::X)))])],
    )]);
    let mut m = Mapper::new(&program);
    assert!(run(&mut m, &program, &frame(&[LB]), 0).is_empty());
    assert_eq!(run(&mut m, &program, &frame(&[LB]), 4), vec![OutputEvent::Key(Key::X, true)]);
    assert!(run(&mut m, &program, &frame(&[LB]), 8).is_empty());
    assert!(run(&mut m, &program, &frame(&[LB]), 12).is_empty());
    assert_eq!(run(&mut m, &program, &frame(&[]), 16), vec![OutputEvent::Key(Key::X, false)]);
}

#[test]
fn layer_none_binding_nullifies_base() {
    let program = program_of(vec![(
        vec![(InputSource::LeftBumper, btn(CompiledAction::Key(Key::A)))],
        vec![layer("off", vec![(InputSource::LeftBumper, CompiledBinding::Unbound)])],
    )]);
    let mut m = Mapper::new(&program);
    let out = run(&mut m, &program, &frame(&[LB]), 0);
    assert_eq!(out, vec![OutputEvent::Key(Key::A, true)]);
    m.force_layer(LayerId::new(0));
    let out = run(&mut m, &program, &frame(&[LB]), 4);
    assert_eq!(out, vec![OutputEvent::Key(Key::A, false)]);
}

#[test]
fn non_naming_layer_falls_through_to_base() {
    let program = program_of(vec![(
        vec![(InputSource::LeftBumper, btn(CompiledAction::Key(Key::A)))],
        vec![layer("aim", vec![(InputSource::RightBumper, btn(CompiledAction::Key(Key::B)))])],
    )]);
    let mut m = Mapper::new(&program);
    m.force_layer(LayerId::new(0));
    let out = run(&mut m, &program, &frame(&[LB]), 0);
    assert_eq!(out, vec![OutputEvent::Key(Key::A, true)]);
}

#[test]
fn two_hold_layers_stack_with_declared_order_precedence() {
    let program = program_of(vec![(
        vec![
            (InputSource::LeftGrip, btn(CompiledAction::HoldLayer(LayerId::new(0)))),
            (InputSource::LeftGrip2, btn(CompiledAction::HoldLayer(LayerId::new(1)))),
        ],
        vec![
            layer(
                "l0",
                vec![
                    (InputSource::RightBumper, btn(CompiledAction::Key(Key::A))),
                    (InputSource::RightGrip, btn(CompiledAction::Key(Key::C))),
                ],
            ),
            layer("l1", vec![(InputSource::RightBumper, btn(CompiledAction::Key(Key::B)))]),
        ],
    )]);
    let mut m = Mapper::new(&program);
    let _ = run(&mut m, &program, &frame(&[LGRIP, LGRIP2]), 0);
    let out = run(&mut m, &program, &frame(&[LGRIP, LGRIP2, RB, RGRIP]), 4);
    assert!(down(&out, Key::B) && down(&out, Key::C));
    assert!(!down(&out, Key::A));
}

#[test]
fn add_and_remove_layer_are_persistent() {
    let program = program_of(vec![(
        vec![
            (InputSource::LeftGrip, start_btn(CompiledAction::AddLayer(LayerId::new(0)))),
            (InputSource::RightGrip, start_btn(CompiledAction::RemoveLayer(LayerId::new(0)))),
        ],
        vec![layer("l0", vec![(InputSource::LeftBumper, btn(CompiledAction::Key(Key::A)))])],
    )]);
    let mut m = Mapper::new(&program);
    let _ = run(&mut m, &program, &frame(&[LGRIP]), 0);
    let _ = run(&mut m, &program, &frame(&[]), 100);
    assert_eq!(run(&mut m, &program, &frame(&[LB]), 200), vec![OutputEvent::Key(Key::A, true)]);
    let _ = run(&mut m, &program, &frame(&[]), 300);
    let _ = run(&mut m, &program, &frame(&[RGRIP]), 400);
    let _ = run(&mut m, &program, &frame(&[]), 500);
    assert!(run(&mut m, &program, &frame(&[LB]), 600).is_empty());
}

#[test]
fn change_action_set_swaps_and_clears_layers() {
    let program = program_of(vec![
        (
            vec![
                (InputSource::LeftGrip, start_btn(CompiledAction::AddLayer(LayerId::new(0)))),
                (InputSource::Menu, start_btn(CompiledAction::ChangeActionSet(SetId::new(1)))),
            ],
            vec![layer("l0", vec![(InputSource::LeftBumper, btn(CompiledAction::Key(Key::A)))])],
        ),
        (vec![(InputSource::LeftBumper, btn(CompiledAction::Key(Key::B)))], vec![]),
    ]);
    let mut m = Mapper::new(&program);
    let _ = run(&mut m, &program, &frame(&[LGRIP]), 0);
    let _ = run(&mut m, &program, &frame(&[]), 100);
    assert!(down(&run(&mut m, &program, &frame(&[LB]), 200), Key::A));
    let _ = run(&mut m, &program, &frame(&[]), 300);
    let _ = run(&mut m, &program, &frame(&[MENU]), 400);
    let _ = run(&mut m, &program, &frame(&[]), 500);
    let out = run(&mut m, &program, &frame(&[LB]), 600);
    assert!(down(&out, Key::B) && !down(&out, Key::A));
}

/// A little driver for the press-sequence tests: the mapper, its program and the clock.
struct Rig {
    m: Mapper,
    program: Program,
    t: u64,
}

impl Rig {
    fn new(program: Program) -> Rig {
        Rig { m: Mapper::new(&program), program, t: 0 }
    }

    fn tick(&mut self, buttons: &[Button]) -> Vec<OutputEvent> {
        let out = run(&mut self.m, &self.program, &frame(buttons), self.t);
        self.t += 4;
        out
    }

    /// Tick `buttons` every 4 ms for `ms`, returning the last tick's events.
    fn hold(&mut self, buttons: &[Button], ms: u64) -> Vec<OutputEvent> {
        let mut last = Vec::new();
        let end = self.t + ms;
        while self.t < end {
            last = self.tick(buttons);
        }
        last
    }
}

#[test]
fn same_button_add_remove_layer_toggles_once_per_press_regardless_of_hold_length() {
    let program = program_of(vec![(
        vec![(InputSource::LeftBumper, btn(CompiledAction::AddLayer(LayerId::new(0))))],
        vec![layer(
            "aim",
            vec![
                (InputSource::LeftBumper, btn(CompiledAction::RemoveLayer(LayerId::new(0)))),
                (InputSource::RightBumper, btn(CompiledAction::Key(Key::X))),
            ],
        )],
    )]);
    let mut r = Rig::new(program);
    let layer_active = |r: &mut Rig| {
        let _ = r.tick(&[]);
        let out = r.tick(&[RB]);
        let _ = r.tick(&[]);
        down(&out, Key::X)
    };
    let press_l1 = |r: &mut Rig, n: usize| {
        for _ in 0..n {
            let _ = r.tick(&[LB]);
        }
        let _ = r.tick(&[]);
    };
    assert!(!layer_active(&mut r), "starts off");
    press_l1(&mut r, 1);
    assert!(layer_active(&mut r), "one short press → on");
    press_l1(&mut r, 50);
    assert!(!layer_active(&mut r), "one long press → off (no strobe)");
    press_l1(&mut r, 37);
    assert!(layer_active(&mut r), "another long press → on");
}

fn xbox_self_toggle_program() -> Program {
    program_of(vec![(
        vec![(
            InputSource::LeftBumper,
            CompiledBinding::Button {
                commands: vec![
                    ireg_cmd(CompiledAction::AddLayer(LayerId::new(0))),
                    long_cmd(450, CompiledAction::HoldLayer(LayerId::new(0))),
                ],
            },
        )],
        vec![layer(
            "aim",
            vec![
                (
                    InputSource::LeftBumper,
                    CompiledBinding::Button { commands: vec![ireg_cmd(CompiledAction::RemoveLayer(LayerId::new(0)))] },
                ),
                (InputSource::RightBumper, btn(CompiledAction::Key(Key::X))),
            ],
        )],
    )])
}

#[test]
fn self_removing_layer_with_interruptible_regular_removes_on_the_second_press() {
    let mut r = Rig::new(xbox_self_toggle_program());
    let layer_active = |r: &mut Rig| {
        let _ = r.hold(&[], 20);
        let out = r.tick(&[RB]);
        let _ = r.hold(&[], 80);
        down(&out, Key::X)
    };
    let short_press = |r: &mut Rig| {
        let _ = r.hold(&[LB], 80);
        let _ = r.hold(&[], 80);
    };
    assert!(!layer_active(&mut r), "starts off");
    short_press(&mut r);
    assert!(layer_active(&mut r), "short press adds the layer");
    short_press(&mut r);
    assert!(!layer_active(&mut r), "second short press must remove it");
}

#[test]
fn self_removing_layer_long_hold_activates_only_while_held() {
    let mut r = Rig::new(xbox_self_toggle_program());
    let _ = r.hold(&[LB], 600);
    let out = r.tick(&[LB, RB]);
    assert!(down(&out, Key::X), "layer active while L1 held past the Long");
    let _ = r.hold(&[LB], 40);
    let _ = r.hold(&[], 40);
    let out = r.tick(&[RB]);
    assert!(!down(&out, Key::X), "layer dropped after releasing the long hold");
}

#[test]
fn a_self_added_layer_that_rebinds_the_node_adds_one_layer_per_press() {
    let program = program_of(vec![(
        vec![(InputSource::LeftBumper, btn(CompiledAction::AddLayer(LayerId::new(0))))],
        vec![
            layer(
                "l0",
                vec![
                    (InputSource::LeftBumper, btn(CompiledAction::AddLayer(LayerId::new(1)))),
                    (InputSource::RightBumper, btn(CompiledAction::Key(Key::A))),
                ],
            ),
            layer("l1", vec![(InputSource::RightGrip, btn(CompiledAction::Key(Key::B)))]),
        ],
    )]);
    let mut r = Rig::new(program);
    let press_l1 = |r: &mut Rig| {
        let _ = r.hold(&[LB], 40);
        let _ = r.hold(&[], 80);
    };
    let active = |r: &mut Rig, b: Button, key: Key| {
        let out = r.tick(&[b]);
        let _ = r.tick(&[]);
        down(&out, key)
    };
    assert!(!active(&mut r, RB, Key::A), "layer 0 off at start");
    press_l1(&mut r);
    assert!(active(&mut r, RB, Key::A), "one press → layer 0");
    assert!(!active(&mut r, RGRIP, Key::B), "layer 1 still off — the chained add is deduped");
    press_l1(&mut r);
    assert!(active(&mut r, RGRIP, Key::B), "second press → layer 1");
}

#[test]
fn one_button_cycles_action_sets_once_per_press() {
    let set = |next: usize, mark: Key| {
        (
            vec![
                (InputSource::Menu, btn(CompiledAction::ChangeActionSet(SetId::new(next)))),
                (InputSource::LeftBumper, btn(CompiledAction::Key(mark))),
            ],
            vec![],
        )
    };
    let program = program_of(vec![set(1, Key::A), set(2, Key::B), set(0, Key::C)]);
    let mut r = Rig::new(program);
    let active_marker = |r: &mut Rig| {
        let _ = r.tick(&[]);
        let out = r.tick(&[LB]);
        let _ = r.tick(&[]);
        out
    };
    let press_menu = |r: &mut Rig, n: usize| {
        for _ in 0..n {
            let _ = r.tick(&[MENU]);
        }
        let _ = r.tick(&[]);
    };
    assert!(down(&active_marker(&mut r), Key::A), "starts on set0");
    press_menu(&mut r, 30);
    assert!(down(&active_marker(&mut r), Key::B), "one press → set1");
    press_menu(&mut r, 30);
    assert!(down(&active_marker(&mut r), Key::C), "another press → set2");
    press_menu(&mut r, 30);
    assert!(down(&active_marker(&mut r), Key::A), "wraps back to set0");
}

#[test]
fn interruptible_regular_and_long_fire_the_right_layer_op_once() {
    let program = || {
        program_of(vec![(
            vec![(
                InputSource::LeftBumper,
                CompiledBinding::Button {
                    commands: vec![
                        ireg_cmd(CompiledAction::AddLayer(LayerId::new(0))),
                        long_cmd(300, CompiledAction::AddLayer(LayerId::new(1))),
                    ],
                },
            )],
            vec![
                layer("tap", vec![(InputSource::RightBumper, btn(CompiledAction::Key(Key::A)))]),
                layer("hold", vec![(InputSource::RightBumper, btn(CompiledAction::Key(Key::B)))]),
            ],
        )])
    };
    let outcome = |hold_to: u64, release_at: u64| {
        let program = program();
        let mut m = Mapper::new(&program);
        let mut t = 0;
        while t <= hold_to {
            let _ = run(&mut m, &program, &frame(&[LB]), t);
            t += 4;
        }
        let mut rt = release_at;
        while rt <= release_at + 100 {
            let _ = run(&mut m, &program, &frame(&[]), rt);
            rt += 4;
        }
        let out = run(&mut m, &program, &frame(&[RB]), release_at + 200);
        (down(&out, Key::A), down(&out, Key::B))
    };
    assert_eq!(outcome(48, 52), (true, false), "quick tap → layer 0");
    assert_eq!(outcome(292, 296), (true, false), "tap just before threshold → layer 0");
    assert_eq!(outcome(300, 320), (false, true), "hold to threshold → layer 1");
    assert_eq!(outcome(1000, 1020), (false, true), "long hold → layer 1");
}

#[test]
fn one_command_applies_all_its_persistent_ops_atomically() {
    let program = program_of(vec![(
        vec![
            (InputSource::LeftGrip, start_btn(CompiledAction::AddLayer(LayerId::new(1)))),
            (
                InputSource::LeftBumper,
                CompiledBinding::Button {
                    commands: vec![regular(vec![
                        CompiledAction::AddLayer(LayerId::new(0)),
                        CompiledAction::RemoveLayer(LayerId::new(1)),
                    ])],
                },
            ),
        ],
        vec![
            layer("l0", vec![(InputSource::RightBumper, btn(CompiledAction::Key(Key::A)))]),
            layer("l1", vec![(InputSource::RightGrip, btn(CompiledAction::Key(Key::B)))]),
        ],
    )]);
    let mut m = Mapper::new(&program);
    let _ = run(&mut m, &program, &frame(&[LGRIP]), 0);
    let _ = run(&mut m, &program, &frame(&[]), 100);
    assert!(down(&run(&mut m, &program, &frame(&[RGRIP]), 200), Key::B));
    let _ = run(&mut m, &program, &frame(&[]), 300);
    let _ = run(&mut m, &program, &frame(&[LB]), 400);
    let _ = run(&mut m, &program, &frame(&[]), 500);
    assert!(down(&run(&mut m, &program, &frame(&[RB]), 600), Key::A));
    assert!(!down(&run(&mut m, &program, &frame(&[RGRIP]), 700), Key::B));
}

#[test]
fn one_command_adds_two_distinct_layers_atomically() {
    let program = program_of(vec![(
        vec![(
            InputSource::LeftBumper,
            CompiledBinding::Button {
                commands: vec![regular(vec![
                    CompiledAction::AddLayer(LayerId::new(0)),
                    CompiledAction::AddLayer(LayerId::new(1)),
                ])],
            },
        )],
        vec![
            layer("l0", vec![(InputSource::RightBumper, btn(CompiledAction::Key(Key::A)))]),
            layer("l1", vec![(InputSource::RightGrip, btn(CompiledAction::Key(Key::B)))]),
        ],
    )]);
    let mut m = Mapper::new(&program);
    let _ = run(&mut m, &program, &frame(&[LB]), 0);
    let _ = run(&mut m, &program, &frame(&[]), 100);
    assert!(down(&run(&mut m, &program, &frame(&[RB]), 200), Key::A));
    assert!(down(&run(&mut m, &program, &frame(&[RGRIP]), 300), Key::B));
}

#[test]
fn persistent_op_dedup_is_per_node_not_global() {
    let program = program_of(vec![(
        vec![
            (InputSource::LeftBumper, btn(CompiledAction::AddLayer(LayerId::new(0)))),
            (InputSource::LeftGrip, btn(CompiledAction::AddLayer(LayerId::new(1)))),
        ],
        vec![
            layer(
                "l0",
                vec![
                    (InputSource::LeftBumper, btn(CompiledAction::RemoveLayer(LayerId::new(0)))),
                    (InputSource::RightBumper, btn(CompiledAction::Key(Key::A))),
                ],
            ),
            layer(
                "l1",
                vec![
                    (InputSource::LeftGrip, btn(CompiledAction::RemoveLayer(LayerId::new(1)))),
                    (InputSource::RightGrip, btn(CompiledAction::Key(Key::B))),
                ],
            ),
        ],
    )]);
    let mut m = Mapper::new(&program);
    for t in (0..40).step_by(4) {
        let _ = run(&mut m, &program, &frame(&[LB, LGRIP]), t);
    }
    let _ = run(&mut m, &program, &frame(&[]), 40);
    let l0 = down(&run(&mut m, &program, &frame(&[RB]), 44), Key::A);
    let l1 = down(&run(&mut m, &program, &frame(&[RGRIP]), 48), Key::B);
    assert!(l0 && l1, "both layers on after one shared press");
    for t in (52..92).step_by(4) {
        let _ = run(&mut m, &program, &frame(&[LB, LGRIP]), t);
    }
    let _ = run(&mut m, &program, &frame(&[]), 92);
    let l0 = down(&run(&mut m, &program, &frame(&[RB]), 96), Key::A);
    let l1 = down(&run(&mut m, &program, &frame(&[RGRIP]), 100), Key::B);
    assert!(!l0 && !l1, "both layers off after the next shared press");
}

#[test]
fn a_node_makes_at_most_one_persistent_change_per_press() {
    let program = program_of(vec![(
        vec![(
            InputSource::LeftBumper,
            CompiledBinding::Button {
                commands: vec![
                    long_cmd(300, CompiledAction::AddLayer(LayerId::new(0))),
                    long_cmd(500, CompiledAction::AddLayer(LayerId::new(1))),
                ],
            },
        )],
        vec![
            layer("l0", vec![(InputSource::RightBumper, btn(CompiledAction::Key(Key::A)))]),
            layer("l1", vec![(InputSource::RightGrip, btn(CompiledAction::Key(Key::B)))]),
        ],
    )]);
    let mut m = Mapper::new(&program);
    for t in (0..700).step_by(4) {
        let _ = run(&mut m, &program, &frame(&[LB]), t);
    }
    let _ = run(&mut m, &program, &frame(&[]), 700);
    assert!(down(&run(&mut m, &program, &frame(&[RB]), 704), Key::A));
    assert!(!down(&run(&mut m, &program, &frame(&[RGRIP]), 708), Key::B));
}

#[test]
fn tap_adds_a_layer_while_hold_changes_action_set() {
    let program = program_of(vec![
        (
            vec![(
                InputSource::LeftBumper,
                CompiledBinding::Button {
                    commands: vec![
                        ireg_cmd(CompiledAction::AddLayer(LayerId::new(0))),
                        long_cmd(300, CompiledAction::ChangeActionSet(SetId::new(1))),
                    ],
                },
            )],
            vec![layer("l0", vec![(InputSource::RightBumper, btn(CompiledAction::Key(Key::A)))])],
        ),
        (vec![(InputSource::RightBumper, btn(CompiledAction::Key(Key::C)))], vec![]),
    ]);
    let run_span = |m: &mut Mapper, buttons: &[Button], from: u64, to: u64| {
        let mut t = from;
        while t < to {
            let _ = run(m, &program, &frame(buttons), t);
            t += 4;
        }
    };
    let mut m = Mapper::new(&program);
    run_span(&mut m, &[LB], 0, 150);
    run_span(&mut m, &[], 150, 300);
    let out = run(&mut m, &program, &frame(&[RB]), 300);
    assert!(down(&out, Key::A) && !down(&out, Key::C), "tap → layer 0 in set 0");
    let mut m = Mapper::new(&program);
    run_span(&mut m, &[LB], 0, 400);
    run_span(&mut m, &[], 400, 480);
    let out = run(&mut m, &program, &frame(&[RB]), 500);
    assert!(down(&out, Key::C) && !down(&out, Key::A), "hold → action set 1");
}

#[test]
fn set_change_in_a_command_overrides_a_same_command_add_layer() {
    let program = program_of(vec![
        (
            vec![(
                InputSource::LeftBumper,
                CompiledBinding::Button {
                    commands: vec![regular(vec![
                        CompiledAction::AddLayer(LayerId::new(0)),
                        CompiledAction::ChangeActionSet(SetId::new(1)),
                    ])],
                },
            )],
            vec![layer("l0", vec![(InputSource::RightBumper, btn(CompiledAction::Key(Key::A)))])],
        ),
        (vec![(InputSource::RightBumper, btn(CompiledAction::Key(Key::C)))], vec![]),
    ]);
    let mut m = Mapper::new(&program);
    let _ = run(&mut m, &program, &frame(&[LB]), 0);
    let _ = run(&mut m, &program, &frame(&[]), 4);
    let out = run(&mut m, &program, &frame(&[RB]), 8);
    assert!(down(&out, Key::C) && !down(&out, Key::A), "set change wins; layer add dropped");
}

#[test]
fn a_node_that_changes_set_does_not_also_fire_the_new_sets_op_until_released() {
    let program = program_of(vec![
        (vec![(InputSource::Menu, btn(CompiledAction::ChangeActionSet(SetId::new(1))))], vec![]),
        (
            vec![
                (InputSource::Menu, btn(CompiledAction::AddLayer(LayerId::new(0)))),
                (InputSource::RightGrip, btn(CompiledAction::Key(Key::C))),
            ],
            vec![layer("l0", vec![(InputSource::RightBumper, btn(CompiledAction::Key(Key::A)))])],
        ),
    ]);
    let mut m = Mapper::new(&program);
    for t in (0..40).step_by(4) {
        let _ = run(&mut m, &program, &frame(&[MENU]), t);
    }
    let _ = run(&mut m, &program, &frame(&[]), 40);
    assert!(down(&run(&mut m, &program, &frame(&[RGRIP]), 44), Key::C), "switched to set 1");
    assert!(
        !down(&run(&mut m, &program, &frame(&[RB]), 48), Key::A),
        "layer 0 not added while Menu stayed held through the swap"
    );
    let _ = run(&mut m, &program, &frame(&[MENU]), 100);
    let _ = run(&mut m, &program, &frame(&[]), 104);
    assert!(down(&run(&mut m, &program, &frame(&[RB]), 108), Key::A), "second press adds layer 0 in set 1");
}

#[test]
fn a_set_change_bleeds_the_new_sets_binding_through_the_same_press() {
    let program = program_of(vec![
        (vec![(InputSource::Menu, btn(CompiledAction::ChangeActionSet(SetId::new(1))))], vec![]),
        (vec![(InputSource::Menu, btn(CompiledAction::Key(Key::K)))], vec![]),
    ]);
    let mut m = Mapper::new(&program);
    let _ = run(&mut m, &program, &frame(&[MENU]), 0);
    let out = run(&mut m, &program, &frame(&[MENU]), 4);
    assert!(down(&out, Key::K), "the new set's Menu binding bleeds through the same press");
}

#[test]
fn a_held_button_unbound_in_the_new_set_goes_silent() {
    let program = program_of(vec![
        (
            vec![
                (InputSource::LeftBumper, btn(CompiledAction::Key(Key::A))),
                (InputSource::Menu, btn(CompiledAction::ChangeActionSet(SetId::new(1)))),
            ],
            vec![],
        ),
        (vec![(InputSource::RightBumper, btn(CompiledAction::Key(Key::M)))], vec![]),
    ]);
    let mut m = Mapper::new(&program);
    assert_eq!(run(&mut m, &program, &frame(&[LB]), 0), vec![OutputEvent::Key(Key::A, true)]);
    let _ = run(&mut m, &program, &frame(&[LB, MENU]), 4);
    let out = run(&mut m, &program, &frame(&[LB]), 8);
    assert!(out.contains(&OutputEvent::Key(Key::A, false)), "held L1 goes silent — unbound in set1");
}

#[test]
fn a_cross_set_add_after_a_change_set_never_fires() {
    let program = program_of(vec![
        (
            vec![(
                InputSource::Menu,
                CompiledBinding::Button {
                    commands: vec![
                        long_cmd(300, CompiledAction::ChangeActionSet(SetId::new(1))),
                        long_cmd(500, CompiledAction::AddLayer(LayerId::new(0))),
                    ],
                },
            )],
            vec![layer("some", vec![(InputSource::RightBumper, btn(CompiledAction::Key(Key::X)))])],
        ),
        (
            vec![
                (InputSource::Menu, btn(CompiledAction::Key(Key::D))),
                (InputSource::LeftBumper, btn(CompiledAction::Key(Key::C))),
            ],
            vec![],
        ),
    ]);
    let mut m = Mapper::new(&program);
    let mut t = 0u64;
    while t < 600 {
        let _ = run(&mut m, &program, &frame(&[MENU]), t);
        t += 4;
    }
    assert!(down(&run(&mut m, &program, &frame(&[LB]), 600), Key::C), "in set1");
    assert!(!down(&run(&mut m, &program, &frame(&[RB]), 608), Key::X), "no cross-set layer added");
}

#[test]
fn joystick_outer_ring_reads_the_analog_sides_virtual_button() {
    let program = program_with(vec![(
        InputSource::LeftStick,
        CompiledBinding::Joystick { settings: AnalogRef(3), outer_ring: vec![regular(vec![CompiledAction::Key(Key::W)])] },
    )]);
    let mut m = Mapper::new(&program);
    let mut virt: SourceMap<VirtualButtons> = SourceMap::new();
    virt.insert(InputSource::LeftStick, VirtualButtons { up: false, down: false, left: false, right: false, ring: true });
    let (mut out, mut hap) = (Vec::new(), Vec::new());
    m.tick(&frame(&[]), &virt, Tick(0), &program, &mut out, &mut hap);
    assert_eq!(out, vec![OutputEvent::Key(Key::W, true)]);
    let mut out = Vec::new();
    m.tick(&frame(&[]), &SourceMap::new(), Tick(4), &program, &mut out, &mut hap);
    assert_eq!(out, vec![OutputEvent::Key(Key::W, false)]);
}

#[test]
fn trigger_soft_pull_fires_at_its_threshold() {
    let program = program_with(vec![(
        InputSource::LeftTrigger,
        CompiledBinding::Trigger {
            settings: AnalogRef(0),
            soft_pull_at: Pull(500),
            soft_pull: vec![regular(vec![CompiledAction::Key(Key::F)])],
        },
    )]);
    let mut m = Mapper::new(&program);
    let pulled = |p: u32| LogicalFrame::new(ControllerState { buttons: Buttons::empty(), left_trigger: Pull(p), right_trigger: Pull(0) });
    let (mut out, mut hap) = (Vec::new(), Vec::new());
    m.tick(&pulled(499), &SourceMap::new(), Tick(0), &program, &mut out, &mut hap);
    assert!(out.is_empty());
    m.tick(&pulled(500), &SourceMap::new(), Tick(4), &program, &mut out, &mut hap);
    assert_eq!(out, vec![OutputEvent::Key(Key::F, true)]);
}

#[test]
fn a_recorded_trace_replays_identically() {
    let program = program_with(vec![
        (InputSource::LeftBumper, CompiledBinding::Button { commands: vec![long_cmd(100, CompiledAction::Key(Key::A))] }),
        (InputSource::RightBumper, btn(CompiledAction::Key(Key::B))),
    ]);
    let trace: Vec<(Vec<Button>, u64)> =
        vec![(vec![LB], 0), (vec![LB, RB], 50), (vec![LB], 120), (vec![], 160), (vec![RB], 200)];
    let mut a = Mapper::new(&program);
    let mut b = Mapper::new(&program);
    for (buttons, t) in &trace {
        let f = frame(buttons);
        assert_eq!(run(&mut a, &program, &f, *t), run(&mut b, &program, &f, *t));
    }
}
