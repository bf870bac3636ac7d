use deckhand::mapper::activator::SlotState;
use deckhand::mapper::command::eval_commands;
use deckhand::mapper::layers::{LayerOps, NodeHeld};
use deckhand::mapper::reconcile::DesiredLevels;
use deckhand::mapper::{HapticReq, Tick};
use deckhand::program::{CompiledAction, CompiledCommand};
use deckhand::vocab::{
    Activator, CommandSettings, HapticEdge, HapticStrength, Haptics, InputSource, Key, MouseButton, Side, Turbo,
};

fn cmd(activator: Activator) -> CompiledCommand {
    cmd_key(activator, Key::A, CommandSettings::new())
}

fn cmd_key(activator: Activator, key: Key, settings: CommandSettings) -> CompiledCommand {
    CompiledCommand { activator, actions: vec![CompiledAction::Key(key)], settings }
}

fn regular(interruptible: bool) -> Activator {
    Activator::Regular { interruptible }
}

fn step_many(commands: &[CompiledCommand], slot: &mut SlotState, held: bool, now: u64) -> DesiredLevels {
    let mut d = DesiredLevels::new();
    let mut ops = LayerOps::new();
    let mut haptics: Vec<HapticReq> = Vec::new();
    let node = NodeHeld::Button(InputSource::LeftBumper);
    eval_commands(&commands.to_vec(), held, &node, Side::Left, slot, &Tick(now), &mut d, &mut ops, &mut haptics);
    d
}

fn step(command: &CompiledCommand, slot: &mut SlotState, held: bool, now: u64) -> bool {
    step_many(std::slice::from_ref(command), slot, held, now).has_key(&Key::A)
}

fn step_haptics(command: &CompiledCommand, slot: &mut SlotState, held: bool, now: u64) -> Vec<HapticReq> {
    let mut d = DesiredLevels::new();
    let mut ops = LayerOps::new();
    let mut haptics: Vec<HapticReq> = Vec::new();
    let node = NodeHeld::Button(InputSource::LeftBumper);
    eval_commands(&vec![command.clone()], held, &node, Side::Right, slot, &Tick(now), &mut d, &mut ops, &mut haptics);
    haptics
}

#[test]
fn regular_holds_while_held() {
    let c = cmd(regular(false));
    let mut s = SlotState::new();
    assert!(step(&c, &mut s, true, 0));
    assert!(step(&c, &mut s, true, 4));
    assert!(!step(&c, &mut s, false, 8));
}

#[test]
fn interruptible_regular_alone_is_a_plain_hold() {
    let c = cmd(regular(true));
    let mut s = SlotState::new();
    assert!(step(&c, &mut s, true, 0));
    assert!(step(&c, &mut s, true, 100));
    assert!(!step(&c, &mut s, false, 120));
}

#[test]
fn start_taps_on_press_then_releases_even_if_held() {
    let c = cmd(Activator::Start);
    let mut s = SlotState::new();
    assert!(step(&c, &mut s, true, 0));
    assert!(step(&c, &mut s, true, 20));
    assert!(!step(&c, &mut s, true, 60));
}

#[test]
fn long_fires_only_after_threshold() {
    let c = cmd(Activator::Long { hold_ms: 100 });
    let mut s = SlotState::new();
    assert!(!step(&c, &mut s, true, 0));
    assert!(!step(&c, &mut s, true, 50));
    assert!(step(&c, &mut s, true, 100));
    assert!(step(&c, &mut s, true, 150));
    assert!(!step(&c, &mut s, false, 160));
}

#[test]
fn double_fires_on_second_press_within_window() {
    let c = cmd(Activator::Double { window_ms: 200 });
    let mut s = SlotState::new();
    assert!(!step(&c, &mut s, true, 0));
    assert!(!step(&c, &mut s, false, 20));
    assert!(step(&c, &mut s, true, 60));
    assert!(step(&c, &mut s, true, 64));
    assert!(!step(&c, &mut s, false, 70));
    let mut s = SlotState::new();
    assert!(!step(&c, &mut s, true, 0));
    assert!(!step(&c, &mut s, false, 20));
    assert!(!step(&c, &mut s, true, 500));
}

#[test]
fn double_window_is_measured_from_the_first_press() {
    let c = cmd(Activator::Double { window_ms: 200 });
    let mut s = SlotState::new();
    assert!(!step(&c, &mut s, true, 0));
    assert!(!step(&c, &mut s, true, 300));
    assert!(!step(&c, &mut s, false, 300));
    assert!(!step(&c, &mut s, true, 320));
}

#[test]
fn release_taps_on_release_edge() {
    let c = cmd(Activator::Release);
    let mut s = SlotState::new();
    assert!(!step(&c, &mut s, true, 0));
    assert!(!step(&c, &mut s, true, 10));
    assert!(step(&c, &mut s, false, 20));
    assert!(step(&c, &mut s, false, 40));
    assert!(!step(&c, &mut s, false, 80));
}

#[test]
fn short_press_long_activator_never_fires() {
    let c = cmd(Activator::Long { hold_ms: 100 });
    let mut s = SlotState::new();
    assert!(!step(&c, &mut s, true, 0));
    assert!(!step(&c, &mut s, true, 30));
    assert!(!step(&c, &mut s, false, 50));
}

#[test]
fn regular_taps_on_release_when_a_long_is_present_but_unfired() {
    let cmds = [
        cmd_key(regular(true), Key::A, CommandSettings::new()),
        cmd_key(Activator::Long { hold_ms: 300 }, Key::B, CommandSettings::new()),
        cmd_key(Activator::Long { hold_ms: 500 }, Key::C, CommandSettings::new()),
    ];
    let mut s = SlotState::new();
    assert!(!step_many(&cmds, &mut s, true, 0).has_key(&Key::A));
    let d = step_many(&cmds, &mut s, false, 100);
    assert!(d.has_key(&Key::A) && !d.has_key(&Key::B) && !d.has_key(&Key::C));
}

#[test]
fn two_longs_take_over_and_interrupt_the_regular() {
    let cmds = [
        cmd_key(regular(true), Key::A, CommandSettings::new()),
        cmd_key(Activator::Long { hold_ms: 300 }, Key::B, CommandSettings::new()),
        cmd_key(Activator::Long { hold_ms: 500 }, Key::C, CommandSettings::new()),
    ];
    let mut s = SlotState::new();
    step_many(&cmds, &mut s, true, 0);
    let d = step_many(&cmds, &mut s, true, 300);
    assert!(d.has_key(&Key::B) && !d.has_key(&Key::C) && !d.has_key(&Key::A));
    let d = step_many(&cmds, &mut s, true, 500);
    assert!(d.has_key(&Key::C) && !d.has_key(&Key::B) && !d.has_key(&Key::A));
    let d = step_many(&cmds, &mut s, true, 900);
    assert!(d.has_key(&Key::C) && !d.has_key(&Key::B));
    let d = step_many(&cmds, &mut s, false, 1000);
    assert!(!d.has_key(&Key::C) && !d.has_key(&Key::A));
}

#[test]
fn regular_with_double_taps_after_the_window_on_a_single_press() {
    let cmds = [
        cmd_key(regular(true), Key::A, CommandSettings::new()),
        cmd_key(Activator::Double { window_ms: 500 }, Key::B, CommandSettings::new()),
    ];
    let mut s = SlotState::new();
    assert!(!step_many(&cmds, &mut s, true, 0).has_key(&Key::A));
    assert!(!step_many(&cmds, &mut s, false, 50).has_key(&Key::A));
    assert!(!step_many(&cmds, &mut s, false, 400).has_key(&Key::A));
    assert!(step_many(&cmds, &mut s, false, 500).has_key(&Key::A));
    assert!(step_many(&cmds, &mut s, false, 530).has_key(&Key::A));
    assert!(!step_many(&cmds, &mut s, false, 545).has_key(&Key::A));
}

#[test]
fn regular_with_double_real_holds_when_held_past_the_window() {
    let cmds = [
        cmd_key(regular(true), Key::A, CommandSettings::new()),
        cmd_key(Activator::Double { window_ms: 500 }, Key::B, CommandSettings::new()),
    ];
    let mut s = SlotState::new();
    assert!(!step_many(&cmds, &mut s, true, 0).has_key(&Key::A));
    assert!(!step_many(&cmds, &mut s, true, 250).has_key(&Key::A));
    assert!(step_many(&cmds, &mut s, true, 500).has_key(&Key::A));
    assert!(step_many(&cmds, &mut s, true, 900).has_key(&Key::A));
    assert!(!step_many(&cmds, &mut s, false, 1000).has_key(&Key::A));
}

#[test]
fn regular_with_double_is_interrupted_by_a_real_double() {
    let cmds = [
        cmd_key(regular(true), Key::A, CommandSettings::new()),
        cmd_key(Activator::Double { window_ms: 500 }, Key::B, CommandSettings::new()),
    ];
    let mut s = SlotState::new();
    step_many(&cmds, &mut s, true, 0);
    step_many(&cmds, &mut s, false, 50);
    let d = step_many(&cmds, &mut s, true, 100);
    assert!(d.has_key(&Key::B) && !d.has_key(&Key::A));
    let d = step_many(&cmds, &mut s, true, 150);
    assert!(d.has_key(&Key::B) && !d.has_key(&Key::A));
    assert!(!step_many(&cmds, &mut s, false, 200).has_key(&Key::A));
}

#[test]
fn takeover_is_by_fire_time_not_declaration() {
    let cmds = [
        cmd_key(Activator::Long { hold_ms: 500 }, Key::A, CommandSettings::new()),
        cmd_key(Activator::Long { hold_ms: 300 }, Key::B, CommandSettings::new()),
    ];
    let mut s = SlotState::new();
    step_many(&cmds, &mut s, true, 0);
    let d = step_many(&cmds, &mut s, true, 300);
    assert!(d.has_key(&Key::B) && !d.has_key(&Key::A));
    let d = step_many(&cmds, &mut s, true, 600);
    assert!(d.has_key(&Key::A) && !d.has_key(&Key::B));
}

#[test]
fn same_tick_fires_break_the_tie_by_declaration_order() {
    let cmds = [
        cmd_key(Activator::Long { hold_ms: 400 }, Key::A, CommandSettings::new()),
        cmd_key(Activator::Long { hold_ms: 400 }, Key::B, CommandSettings::new()),
    ];
    let mut s = SlotState::new();
    step_many(&cmds, &mut s, true, 0);
    let d = step_many(&cmds, &mut s, true, 400);
    assert!(d.has_key(&Key::A) && d.has_key(&Key::B));
    let d = step_many(&cmds, &mut s, true, 450);
    assert!(!d.has_key(&Key::A) && d.has_key(&Key::B));
}

#[test]
fn superseded_hold_floors_to_a_minimum_click() {
    let cmds = [
        cmd_key(Activator::Long { hold_ms: 290 }, Key::A, CommandSettings::new()),
        cmd_key(Activator::Long { hold_ms: 300 }, Key::B, CommandSettings::new()),
    ];
    let mut s = SlotState::new();
    step_many(&cmds, &mut s, true, 0);
    let d = step_many(&cmds, &mut s, true, 290);
    assert!(d.has_key(&Key::A) && !d.has_key(&Key::B));
    let d = step_many(&cmds, &mut s, true, 300);
    assert!(d.has_key(&Key::A) && d.has_key(&Key::B));
    let d = step_many(&cmds, &mut s, true, 325);
    assert!(d.has_key(&Key::A) && d.has_key(&Key::B));
    let d = step_many(&cmds, &mut s, true, 335);
    assert!(!d.has_key(&Key::A) && d.has_key(&Key::B));
}

#[test]
fn two_doubles_both_fire_last_declared_held() {
    let cmds = [
        cmd_key(Activator::Double { window_ms: 500 }, Key::A, CommandSettings::new()),
        cmd_key(Activator::Double { window_ms: 200 }, Key::B, CommandSettings::new()),
    ];
    let mut s = SlotState::new();
    step_many(&cmds, &mut s, true, 0);
    step_many(&cmds, &mut s, false, 10);
    let d = step_many(&cmds, &mut s, true, 50);
    assert!(d.has_key(&Key::A) && d.has_key(&Key::B));
    let d = step_many(&cmds, &mut s, true, 100);
    assert!(!d.has_key(&Key::A) && d.has_key(&Key::B));
}

#[test]
fn only_the_wider_double_fires_between_the_windows() {
    let cmds = [
        cmd_key(Activator::Double { window_ms: 500 }, Key::A, CommandSettings::new()),
        cmd_key(Activator::Double { window_ms: 200 }, Key::B, CommandSettings::new()),
    ];
    let mut s = SlotState::new();
    step_many(&cmds, &mut s, true, 0);
    step_many(&cmds, &mut s, false, 10);
    let d = step_many(&cmds, &mut s, true, 300);
    assert!(d.has_key(&Key::A) && !d.has_key(&Key::B));
}

#[test]
fn double_then_two_longs_escalate_on_the_second_press() {
    let cmds = [
        cmd_key(Activator::Double { window_ms: 200 }, Key::A, CommandSettings::new()),
        cmd_key(Activator::Long { hold_ms: 300 }, Key::B, CommandSettings::new()),
        cmd_key(Activator::Long { hold_ms: 600 }, Key::C, CommandSettings::new()),
    ];
    let mut s = SlotState::new();
    step_many(&cmds, &mut s, true, 0);
    step_many(&cmds, &mut s, false, 10);
    let d = step_many(&cmds, &mut s, true, 50);
    assert!(d.has_key(&Key::A) && !d.has_key(&Key::B) && !d.has_key(&Key::C));
    let d = step_many(&cmds, &mut s, true, 350);
    assert!(d.has_key(&Key::B) && !d.has_key(&Key::A) && !d.has_key(&Key::C));
    let d = step_many(&cmds, &mut s, true, 650);
    assert!(d.has_key(&Key::C) && !d.has_key(&Key::B) && !d.has_key(&Key::A));
    let d = step_many(&cmds, &mut s, false, 700);
    assert!(!d.has_key(&Key::C));
}

#[test]
fn toggle_latches_on_alternate_presses() {
    let c = cmd_key(regular(false), Key::A, CommandSettings { toggle: true, ..CommandSettings::new() });
    let mut s = SlotState::new();
    assert!(step(&c, &mut s, true, 0));
    assert!(step(&c, &mut s, true, 4));
    assert!(step(&c, &mut s, false, 8));
    assert!(!step(&c, &mut s, true, 12));
    assert!(!step(&c, &mut s, false, 16));
    assert!(step(&c, &mut s, true, 20));
}

#[test]
fn turbo_pulses_a_square_wave_while_held() {
    let c = cmd_key(
        regular(false),
        Key::A,
        CommandSettings { turbo: Some(Turbo { interval_ms: 100 }), ..CommandSettings::new() },
    );
    let mut s = SlotState::new();
    assert!(step(&c, &mut s, true, 0));
    assert!(!step(&c, &mut s, true, 50));
    assert!(step(&c, &mut s, true, 100));
    assert!(!step(&c, &mut s, true, 150));
    assert!(!step(&c, &mut s, false, 160));
}

#[test]
fn scroll_button_rides_the_level_path_and_turbo_repeats() {
    let up = |settings| CompiledCommand {
        activator: regular(false),
        actions: vec![CompiledAction::MouseButton(MouseButton::ScrollUp)],
        settings,
    };
    let one = |c: &CompiledCommand, s: &mut SlotState, held, now| {
        step_many(std::slice::from_ref(c), s, held, now).has_mouse(&MouseButton::ScrollUp)
    };
    let c = up(CommandSettings::new());
    let mut s = SlotState::new();
    assert!(one(&c, &mut s, true, 0));
    assert!(one(&c, &mut s, true, 4));
    assert!(!one(&c, &mut s, false, 8));
    let c = up(CommandSettings { turbo: Some(Turbo { interval_ms: 100 }), ..CommandSettings::new() });
    let mut s = SlotState::new();
    assert!(one(&c, &mut s, true, 0));
    assert!(!one(&c, &mut s, true, 50));
    assert!(one(&c, &mut s, true, 100));
}

#[test]
fn command_haptic_fires_on_configured_edges() {
    let with = |on| {
        cmd_key(
            regular(false),
            Key::A,
            CommandSettings { haptics: Haptics { on, strength: HapticStrength::High }, ..CommandSettings::new() },
        )
    };
    let c = with(HapticEdge::OnPress);
    let mut s = SlotState::new();
    let h = step_haptics(&c, &mut s, true, 0);
    assert_eq!(h.len(), 1);
    assert_eq!((h[0].side, h[0].strength), (Side::Right, HapticStrength::High));
    assert!(step_haptics(&c, &mut s, true, 4).is_empty());
    assert!(step_haptics(&c, &mut s, false, 8).is_empty());
    let c = with(HapticEdge::OnRelease);
    let mut s = SlotState::new();
    assert!(step_haptics(&c, &mut s, true, 0).is_empty());
    assert_eq!(step_haptics(&c, &mut s, false, 8).len(), 1);
    let c = with(HapticEdge::Both);
    let mut s = SlotState::new();
    assert_eq!(step_haptics(&c, &mut s, true, 0).len(), 1);
    assert_eq!(step_haptics(&c, &mut s, false, 8).len(), 1);
    let c = with(HapticEdge::Off);
    let mut s = SlotState::new();
    assert!(step_haptics(&c, &mut s, true, 0).is_empty());
    assert!(step_haptics(&c, &mut s, false, 8).is_empty());
}

#[test]
fn start_tap_lasts_exactly_tap_ms() {
    let c = cmd(Activator::Start);
    let mut s = SlotState::new();
    assert!(step(&c, &mut s, true, 1000));
    assert!(step(&c, &mut s, true, 1039));
    assert!(!step(&c, &mut s, true, 1040));
}
