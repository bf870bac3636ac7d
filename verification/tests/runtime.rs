use deckhand::handle::{admits, classify_input, output_is_local, run_state, select_token, start_mode, token_text, InputKind, NotReady, SelectToken, StartMode, Status, Transport};
use deckhand::link::{serve, SeqGate, ServeAction, UplinkKind, PROTOCOL_VERSION};
use deckhand::message::{ProfileRole, RunState};
use deckhand::program::{AnalogRef, CompiledSet, Program, ProgramMeta, Role, SetId, SourceMap};
use deckhand::runtime::{
    click_duration, expand, gordon_click_duration, neptune_click_gain, program_for, start_role, sweep_range,
    tone_dur_ms, tone_freq, triton_click, Click, Sequencer, Effect, HapticStyle, Note, SeqNote, StartProfile, Sweep, Tone,
    CLICK_HIGH_US, CLICK_LOW_US, CLICK_MED_US,
};
use deckhand::program::empty_program;
use deckhand::vocab::{Activator, Button, Buttons, CommandSettings, HapticStrength, InputSource, Key, Pull, Side};
use deckhand::chords::{GlobalAction, GlobalChord, SwitchMode};
use deckhand::logical::ControllerState;
use deckhand::mapper::behavior::VirtualButtons;
use deckhand::mapper::reconcile::OutputEvent;
use deckhand::mapper::{HapticReq, Tick};
use deckhand::program::{CompiledAction, CompiledBinding, CompiledCommand};
use deckhand::runtime::{emit_layer_view, Control, LayerView, MappingCore};
use deckhand::program::{CompiledLayer, LayerId};
use deckhand::mapper::Mapper;

fn prog(name: &str) -> Program {
    Program {
        meta: ProgramMeta { name: name.into(), role: Role::Main },
        default_set: SetId::new(0),
        rumble: AnalogRef(0),
        sets: vec![CompiledSet { name: "s".into(), base: SourceMap::new(), layers: vec![] }],
    }
}

#[test]
fn click_duration_maps_strength_and_scales_with_master() {
    assert_eq!(click_duration(&HapticStrength::Low, 100), CLICK_LOW_US);
    assert_eq!(click_duration(&HapticStrength::Medium, 100), CLICK_MED_US);
    assert_eq!(click_duration(&HapticStrength::High, 100), CLICK_HIGH_US);
    assert_eq!(click_duration(&HapticStrength::High, 50), CLICK_HIGH_US / 2);
    assert_eq!(click_duration(&HapticStrength::Low, 0), 1);
}

#[test]
fn click_duration_caps_master_at_full() {
    assert_eq!(click_duration(&HapticStrength::High, 255), CLICK_HIGH_US);
}

#[test]
fn program_for_resolves_and_falls_back_to_empty() {
    let empty = empty_program();
    let main = Some(prog("main"));
    let fb = Some(prog("fallback"));
    let none: Option<Program> = None;
    assert_eq!(program_for(&Role::Main, &main, &fb, &empty).meta.name, "main");
    assert_eq!(program_for(&Role::Fallback, &main, &fb, &empty).meta.name, "fallback");
    assert_eq!(program_for(&Role::Fallback, &main, &none, &empty).meta.name, "main");
    assert_eq!(program_for(&Role::Main, &none, &fb, &empty).meta.name, "fallback");
    assert_eq!(program_for(&Role::Main, &none, &none, &empty).meta.name, "EMPTY_PROFILE");
    assert_eq!(program_for(&Role::Fallback, &none, &none, &empty).meta.name, "EMPTY_PROFILE");
}

#[test]
fn program_for_falls_back_to_active_when_unset() {
    let empty = empty_program();
    let main = Some(prog("main"));
    let none: Option<Program> = None;
    assert_eq!(program_for(&Role::Fallback, &main, &none, &empty).meta.name, "main");
    let fb = Some(prog("fallback"));
    assert_eq!(program_for(&Role::Fallback, &main, &fb, &empty).meta.name, "fallback");
    assert_eq!(program_for(&Role::Main, &main, &fb, &empty).meta.name, "main");
}

#[test]
fn start_role_follows_the_boot_setting() {
    assert_eq!(start_role(StartProfile::Main), Role::Main);
    assert_eq!(start_role(StartProfile::Fallback), Role::Fallback);
}

#[test]
fn feedback_presets() {
    assert_eq!(tone_freq(Tone::ShortLow), 800);
    assert_eq!(tone_freq(Tone::LongHigh), 1600);
    assert_eq!(tone_dur_ms(Tone::ShortMedium), 30);
    assert_eq!(tone_dur_ms(Tone::LongLow), 100);
    assert_eq!(sweep_range(Sweep::Up1), (800, 2000));
    assert_eq!(sweep_range(Sweep::Down3), (2000, 1400));
    assert_eq!(gordon_click_duration(&Click::Medium), 1000);
    assert_eq!(neptune_click_gain(&Side::Right, &Click::Strong), 6);
    assert_eq!(neptune_click_gain(&Side::Left, &Click::Weak), -2);
    assert_eq!(triton_click(&Click::Medium), (HapticStyle::Weak, 255));
}

#[test]
fn expand_spaces_notes_by_duration_plus_gap() {
    assert_eq!(
        expand(&Effect::AudioTriple(Tone::LongLow, Tone::ShortHigh, Tone::ShortLow)),
        vec![
            SeqNote { interval_ms: 0, note: Note::Audio(Tone::LongLow) },
            SeqNote { interval_ms: 130, note: Note::Audio(Tone::ShortHigh) },
            SeqNote { interval_ms: 60, note: Note::Audio(Tone::ShortLow) },
        ]
    );
    assert_eq!(
        expand(&Effect::HapticDouble(Click::Weak, Click::Strong)),
        vec![
            SeqNote { interval_ms: 0, note: Note::Haptic(Click::Weak) },
            SeqNote { interval_ms: 50, note: Note::Haptic(Click::Strong) },
        ]
    );
}

#[test]
fn run_state_and_wire_mirror() {
    assert_eq!(run_state(false, true), Status::Idle);
    assert_eq!(run_state(true, true), Status::WaitingForDevice);
    assert_eq!(run_state(true, false), Status::Running);
    assert_eq!(RunState::from_status(&Status::WaitingForDevice), RunState::WaitingForDevice);
    assert_eq!(ProfileRole::from_role(Role::Fallback), ProfileRole::Fallback);
    assert_eq!(ProfileRole::Main.role(), Role::Main);
}

#[test]
fn selection_tokens_parse_and_display() {
    assert_eq!(select_token("dongle"), Some(SelectToken::Transport(Transport::UsbDongle)));
    assert_eq!(select_token("a"), Some(SelectToken::Auto));
    assert_eq!(select_token("w"), Some(SelectToken::Transport(Transport::UsbWired)));
    assert_eq!(select_token("wat"), None);
    for t in [SelectToken::Auto, SelectToken::Transport(Transport::UsbDongle), SelectToken::Transport(Transport::UsbWired)] {
        assert_eq!(select_token(token_text(t)), Some(t));
    }
    assert_eq!(token_text(SelectToken::Auto), "auto");
    assert_eq!(token_text(SelectToken::Transport(Transport::UsbDongle)), "dongle");
    assert_eq!(token_text(SelectToken::Transport(Transport::UsbWired)), "wired");
    assert!(output_is_local("local") && output_is_local("l") && !output_is_local("127.0.0.1:9000"));
}

#[test]
fn input_classification_is_most_specific_first() {
    assert_eq!(classify_input("gordon:dongle:1:", true, false), InputKind::Device);
    assert_eq!(classify_input("dongle", false, false), InputKind::Token(SelectToken::Transport(Transport::UsbDongle)));
    assert_eq!(classify_input("192.168.0.5:9000", false, true), InputKind::Network);
    assert_eq!(classify_input("wat", false, false), InputKind::Unrecognized);
}

#[test]
fn start_mode_follows_the_staged_endpoints() {
    assert_eq!(start_mode(false, false, true), Ok(StartMode::Local));
    assert_eq!(start_mode(false, true, false), Ok(StartMode::Forwarder));
    assert_eq!(start_mode(true, false, true), Ok(StartMode::Server));
    assert_eq!(start_mode(true, true, true), Err(NotReady::BothNetwork));
    assert_eq!(start_mode(false, false, false), Err(NotReady::NoMainProgram));
}

#[test]
fn the_uplink_needs_a_matching_hello_first() {
    assert_eq!(serve(false, UplinkKind::Apply), ServeAction::Drop);
    assert_eq!(serve(false, UplinkKind::Hello { version: PROTOCOL_VERSION + 1 }), ServeAction::Drop);
    assert_eq!(serve(false, UplinkKind::Hello { version: PROTOCOL_VERSION }), ServeAction::Greet);
    assert_eq!(serve(true, UplinkKind::Ping), ServeAction::Ignore);
    assert_eq!(serve(true, UplinkKind::Event), ServeAction::Forward);
}

#[test]
fn the_seq_gate_drops_stale_snapshots() {
    let mut g = SeqGate::new();
    assert!(g.accept(5));
    assert!(!g.accept(5));
    assert!(!g.accept(3));
    assert!(g.accept(6));
    g.reset();
    assert!(g.accept(1));
}

#[test]
fn a_single_note_effect_leaves_no_sequence() {
    let (first, seq) = Sequencer::start(&Effect::Haptic(Click::Strong), Side::Left, 5);
    assert_eq!(first, Note::Haptic(Click::Strong));
    assert!(seq.is_none());
}

#[test]
fn a_sequence_plays_each_note_when_due() {
    let (first, seq) = Sequencer::start(&Effect::AudioDouble(Tone::ShortLow, Tone::LongHigh), Side::Right, 1000);
    assert_eq!(first, Note::Audio(Tone::ShortLow));
    let mut seq = seq.unwrap();
    assert_eq!(seq.side(), Side::Right);
    assert_eq!(seq.advance(1069), (true, vec![]));
    assert_eq!(seq.advance(1070), (false, vec![Note::Audio(Tone::LongHigh)]));
}

#[test]
fn a_late_lap_catches_up_on_every_due_note() {
    let eff = Effect::HapticTriple(Click::Weak, Click::Medium, Click::Strong);
    let (first, seq) = Sequencer::start(&eff, Side::Left, 0);
    assert_eq!(first, Note::Haptic(Click::Weak));
    let mut seq = seq.unwrap();
    assert_eq!(seq.advance(45), (true, vec![Note::Haptic(Click::Medium)]));
    // the third note is due 40 ms after the second was due (at 40), not after it played
    assert_eq!(seq.advance(80), (false, vec![Note::Haptic(Click::Strong)]));
}

fn key_program(name: &str, role: Role, key: Key) -> Program {
    let cmd = CompiledCommand {
        activator: Activator::Regular { interruptible: false },
        actions: vec![CompiledAction::Key(key)],
        settings: CommandSettings::new(),
    };
    Program {
        meta: ProgramMeta { name: name.into(), role },
        default_set: SetId::new(0),
        rumble: AnalogRef(0),
        sets: vec![CompiledSet {
            name: "Game".into(),
            base: SourceMap::from_pairs(vec![(InputSource::RightBumper, CompiledBinding::Button { commands: vec![cmd] })]),
            layers: vec![],
        }],
    }
}

fn state(buttons: &[Button]) -> ControllerState {
    let mut b = Buttons::empty();
    for x in buttons {
        b = b.with(*x);
    }
    ControllerState { buttons: b, left_trigger: Pull(0), right_trigger: Pull(0) }
}

fn map(core: &mut MappingCore, buttons: &[Button], t: u64) -> (Option<Role>, Vec<OutputEvent>) {
    let step = core.eval_chords(state(buttons));
    let virt: SourceMap<VirtualButtons> = SourceMap::new();
    let mut out = Vec::new();
    let mut haptics: Vec<HapticReq> = Vec::new();
    core.map_frame(&step.frame, &virt, Tick(t), &mut out, &mut haptics);
    (step.switched, out)
}

#[test]
fn a_hold_chord_switches_to_fallback_and_eats_its_buttons() {
    let chords = vec![GlobalChord {
        buttons: vec![Button::LB, Button::View],
        action: GlobalAction::SwitchProfile { mode: SwitchMode::HoldFallback },
    }];
    let mut core = MappingCore::new(
        Some(key_program("main", Role::Main, Key::A)),
        Some(key_program("fb", Role::Fallback, Key::B)),
        Some(chords),
        StartProfile::Main,
    );
    assert_eq!(core.program().meta.name, "main");
    let (sw, out) = map(&mut core, &[Button::RB], 0);
    assert_eq!(sw, None);
    assert_eq!(out, vec![OutputEvent::Key(Key::A, true)]);
    let (sw, out) = map(&mut core, &[Button::RB, Button::LB, Button::View], 4);
    assert_eq!(sw, Some(Role::Fallback));
    assert_eq!(core.program().meta.name, "fb");
    assert!(out.contains(&OutputEvent::Key(Key::B, true)));
    assert!(out.contains(&OutputEvent::Key(Key::A, false)));
    let (sw, _) = map(&mut core, &[], 8);
    assert_eq!(sw, Some(Role::Main));
}

#[test]
fn live_binding_follows_the_live_program() {
    let core = MappingCore::new(Some(key_program("main", Role::Main, Key::A)), None, None, StartProfile::Main);
    assert!(core.live_binding(&InputSource::RightBumper).is_some());
    assert!(core.live_binding(&InputSource::LeftBumper).is_none());
}

#[test]
fn clearing_the_live_role_reseeds_on_the_other_program() {
    let mut core = MappingCore::new(
        Some(key_program("main", Role::Main, Key::A)),
        Some(key_program("fb", Role::Fallback, Key::B)),
        None,
        StartProfile::Main,
    );
    assert!(!core.apply_control(Control::Apply { program: None, role: Role::Main }));
    assert_eq!(core.program().meta.name, "fb");
    let (_, out) = map(&mut core, &[Button::RB], 0);
    assert_eq!(out, vec![OutputEvent::Key(Key::B, true)]);
    assert!(core.apply_control(Control::Stop));
}

#[test]
fn a_selection_admits_its_transports() {
    assert!(admits(SelectToken::Auto, Transport::UsbWired));
    assert!(admits(SelectToken::Transport(Transport::UsbDongle), Transport::UsbDongle));
    assert!(!admits(SelectToken::Transport(Transport::UsbDongle), Transport::UsbWired));
}

/// Whether `s` is one of the socket addresses these tests use.
fn is_addr(s: &str) -> bool {
    s == "192.168.0.5:9000" || s == "127.0.0.1:9000"
}

#[test]
fn input_parses_transports_and_ids() {
    assert_eq!(
        classify_input("dongle", false, is_addr("dongle")),
        InputKind::Token(SelectToken::Transport(Transport::UsbDongle))
    );
    assert_eq!(classify_input("a", false, is_addr("a")), InputKind::Token(SelectToken::Auto));
    // `gordon:dongle:1:` is a device id (the device layer recognizes it).
    assert_eq!(classify_input("gordon:dongle:1:", true, is_addr("gordon:dongle:1:")), InputKind::Device);
}

#[test]
fn input_parses_network_and_rejects_garbage() {
    assert_eq!(classify_input("192.168.0.5:9000", false, is_addr("192.168.0.5:9000")), InputKind::Network);
    assert_eq!(classify_input("wat", false, is_addr("wat")), InputKind::Unrecognized);
}

#[test]
fn output_parses_local_and_network() {
    assert!(output_is_local("local"));
    assert!(!output_is_local("127.0.0.1:9000") && is_addr("127.0.0.1:9000"));
    assert!(!output_is_local("wat") && !is_addr("wat"));
}

#[test]
fn input_output_round_trip() {
    for spec in ["auto", "dongle", "wired"] {
        match classify_input(spec, false, is_addr(spec)) {
            InputKind::Token(t) => {
                assert_eq!(token_text(t), spec);
                assert_eq!(select_token(token_text(t)), Some(t));
            }
            other => panic!("{spec} classified as {other:?}"),
        }
    }
    assert_eq!(classify_input("127.0.0.1:9000", false, is_addr("127.0.0.1:9000")), InputKind::Network);
    assert!(output_is_local("local"));
}

#[test]
fn layer_view_emits_named_events_on_change_only() {
    let program = Program {
        meta: ProgramMeta { name: "p".into(), role: Role::Main },
        default_set: SetId::new(0),
        rumble: AnalogRef(0),
        sets: vec![CompiledSet {
            name: "game".into(),
            base: SourceMap::from_pairs(vec![(
                InputSource::LeftBumper,
                CompiledBinding::Button {
                    commands: vec![CompiledCommand {
                        activator: Activator::Regular { interruptible: false },
                        actions: vec![CompiledAction::AddLayer(LayerId::new(0))],
                        settings: CommandSettings::new(),
                    }],
                },
            )]),
            layers: vec![CompiledLayer { name: "aim".into(), bindings: SourceMap::new() }],
        }],
    };
    let mut mapper = Mapper::new(&program);
    let mut view = LayerView::new();
    let virt: SourceMap<VirtualButtons> = SourceMap::new();
    let (mut out, mut hap): (Vec<OutputEvent>, Vec<HapticReq>) = (Vec::new(), Vec::new());
    let f = deckhand::logical::LogicalFrame::new(state(&[Button::LB]));

    // Tick 0: the first report names the active set; the AddLayer lands this tick.
    mapper.tick(&f, &virt, Tick(0), &program, &mut out, &mut hap);
    let c = emit_layer_view(&mapper, &program, &mut view);
    assert_eq!(c.set, Some("game".to_string()));
    assert_eq!(c.persistent, Some(vec!["aim".to_string()]));
    assert_eq!(c.held, None);
    // Tick 1: nothing changed, nothing reported.
    mapper.tick(&f, &virt, Tick(4), &program, &mut out, &mut hap);
    let c = emit_layer_view(&mapper, &program, &mut view);
    assert_eq!((c.set, c.held, c.persistent), (None, None, None));
}

#[test]
fn the_engine_boots_into_the_start_profile() {
    let chords = vec![GlobalChord {
        buttons: vec![Button::LB, Button::View],
        action: GlobalAction::SwitchProfile { mode: SwitchMode::Toggle },
    }];
    let mut core = MappingCore::new(
        Some(key_program("main", Role::Main, Key::A)),
        Some(key_program("fb", Role::Fallback, Key::B)),
        Some(chords),
        StartProfile::Fallback,
    );
    assert_eq!(core.program().meta.name, "fb");
    let (sw, out) = map(&mut core, &[Button::RB], 0);
    assert_eq!(sw, None);
    assert_eq!(out, vec![OutputEvent::Key(Key::B, true)]);
    // The toggle flips the latched base, which started on Fallback, over to Main.
    let (sw, _) = map(&mut core, &[Button::LB, Button::View], 4);
    assert_eq!(sw, Some(Role::Main));
}
