//! Command evaluation — a button-like node's commands → output levels, through the activator
//! state machine.
//!
//! Shared by physical buttons and every behavior virtual button (soft-pull, outer-ring, dpad
//! directions, button-pad members): each computes its held-state and calls [`eval_commands`]
//! with that node's [`SlotState`]. Timing runs off the injected [`Tick`].
//!
//! # The activator model
//!
//! - **`Start` / `Release`** — independent one-shot taps (on the press / release edge), held for
//!   [`TAP_MS`]. They never interrupt and are never interrupted.
//! - **`Long` / `Double`** — the interrupters and hold-takers. `Long` fires when held past
//!   `hold_ms`; `Double` on a second press within `window_ms` of the first press. Several may
//!   fire in one interaction, but only the one that fired most recently holds (ties broken by
//!   declaration order, last wins); a superseded one that is still held stays down for at least
//!   [`TAP_MS`] from its fire (the minimum-click floor).
//! - **`Regular`** — presses-and-holds the moment it is safe from interruption (no `Long`/`Double`
//!   on the node can still fire from this interaction). Safe at press → plain hold; safe later
//!   while still held → holds from then; safe only after release → a [`TAP_MS`] tap; interrupted
//!   by a firing `Long`/`Double` first → nothing.
//!
//! `toggle`/`turbo`/haptics post-process each command's resolved level.

use vstd::prelude::*;

use crate::mapper::activator::{cmd_default, CmdState, Deferred, SlotState, SlotView};
use crate::mapper::layers::{apply_op_edge, apply_ops, LayerOps, NodeHeld, OpsView};
use crate::mapper::reconcile::{DesiredLevels, Levels};
use crate::mapper::{HapticReq, Tick};
use crate::program::{CompiledAction, CompiledCommand};
use crate::vocab::{
    Activator, CommandSettings, GamepadButton, HapticEdge, Haptics, Key, MouseButton, Side, Turbo,
};

verus! {

/// How long a tap-style output holds from its trigger edge, in ms.
pub const TAP_MS: u64 = 40;

/// `a − b`, floored at zero.
pub open spec fn sat_sub(a: u64, b: u64) -> int {
    if a >= b {
        a - b
    } else {
        0
    }
}

/// The per-tick facts about a node that all its commands share.
pub struct NodeTick {
    pub held: bool,
    pub pressed: bool,
    pub released: bool,
    /// The current press's start (after this tick's edge).
    pub press_start: Option<u64>,
    /// The previous press's start (before this tick's edge) — the `Double` window base.
    pub prev_press: Option<u64>,
    pub now: u64,
}

pub open spec fn node_tick(slot: SlotView, held: bool, now: u64) -> NodeTick {
    let pressed = held && !slot.prev_held;
    let released = !held && slot.prev_held;
    NodeTick {
        held,
        pressed,
        released,
        press_start: if pressed {
            Some(now)
        } else if released {
            None
        } else {
            slot.press_start
        },
        prev_press: slot.last_press,
        now,
    }
}

/// A command's latches (a fresh one past the end of the retained list).
pub open spec fn cs_at(states: Seq<CmdState>, i: int) -> CmdState {
    if 0 <= i < states.len() {
        states[i]
    } else {
        cmd_default()
    }
}

/// Whether a hold-taker is raw-active this tick, given its latches after the `Double` update.
pub open spec fn raw_of(a: Activator, cs: CmdState, n: NodeTick) -> bool {
    match a {
        Activator::Long { hold_ms } => n.held && n.press_start.is_some() && sat_sub(
            n.now,
            n.press_start.unwrap(),
        ) >= hold_ms,
        Activator::Double { .. } => n.held && cs.double_active,
        _ => false,
    }
}

/// Pass 1 on one command: the `Double` qualification and the hold-taker fire time.
pub open spec fn pass1(a: Activator, cs: CmdState, n: NodeTick) -> CmdState {
    let cs1 = match a {
        Activator::Double { window_ms } => CmdState {
            double_active: if n.pressed {
                n.prev_press.is_some() && sat_sub(n.now, n.prev_press.unwrap()) <= window_ms
            } else if n.released {
                false
            } else {
                cs.double_active
            },
            ..cs
        },
        _ => cs,
    };
    let act = raw_of(a, cs1, n);
    CmdState {
        hold_since: if act {
            if cs1.hold_since.is_none() {
                Some(n.now)
            } else {
                cs1.hold_since
            }
        } else {
            None
        },
        ..cs1
    }
}

pub open spec fn cs1_of(cmds: Seq<CompiledCommand>, old: Seq<CmdState>, n: NodeTick, i: int) -> CmdState {
    pass1(cmds[i].activator, cs_at(old, i), n)
}

pub open spec fn raw_at(cmds: Seq<CompiledCommand>, old: Seq<CmdState>, n: NodeTick, i: int) -> bool {
    raw_of(cmds[i].activator, cs1_of(cmds, old, n, i), n)
}

/// A hold-taker's fire time.
pub open spec fn fire_time(cs: CmdState, now: u64) -> u64 {
    match cs.hold_since {
        Some(t) => t,
        None => now,
    }
}

/// The takeover winner among commands `0..k`: the latest fire time, ties to the later index.
pub open spec fn winner_upto(
    cmds: Seq<CompiledCommand>,
    old: Seq<CmdState>,
    n: NodeTick,
    k: int,
) -> Option<(u64, int)>
    decreases k,
{
    if k <= 0 {
        None
    } else {
        let w = winner_upto(cmds, old, n, k - 1);
        let hs = fire_time(cs1_of(cmds, old, n, k - 1), n.now);
        if raw_at(cmds, old, n, k - 1) && (w.is_none() || hs >= w.unwrap().0) {
            Some((hs, k - 1))
        } else {
            w
        }
    }
}

/// The widest `Double` window among commands `0..k`.
pub open spec fn max_window_upto(cmds: Seq<CompiledCommand>, k: int) -> Option<u64>
    decreases k,
{
    if k <= 0 {
        None
    } else {
        let m = max_window_upto(cmds, k - 1);
        match cmds[k - 1].activator {
            Activator::Double { window_ms } => Some(
                match m {
                    None => window_ms as u64,
                    Some(x) => if x >= window_ms {
                        x
                    } else {
                        window_ms as u64
                    },
                },
            ),
            _ => m,
        }
    }
}

/// The node-wide facts pass 2 reads.
pub struct NodeFacts {
    pub has_long: bool,
    pub max_window: Option<u64>,
    pub interrupter_active: bool,
    pub winner: Option<int>,
}

pub open spec fn is_long(a: Activator) -> bool {
    a is Long
}

pub open spec fn node_facts(cmds: Seq<CompiledCommand>, old: Seq<CmdState>, n: NodeTick) -> NodeFacts {
    NodeFacts {
        has_long: exists|i: int| 0 <= i < cmds.len() && is_long(#[trigger] cmds[i].activator),
        max_window: max_window_upto(cmds, cmds.len() as int),
        interrupter_active: exists|i: int| 0 <= i < cmds.len() && #[trigger] raw_at(cmds, old, n, i),
        winner: match winner_upto(cmds, old, n, cmds.len() as int) {
            Some(w) => Some(w.1),
            None => None,
        },
    }
}

pub open spec fn tap_on(tap_until: Option<u64>, now: u64) -> bool {
    tap_until.is_some() && now < tap_until.unwrap()
}

/// The interruptible-`Regular` state machine: its latches after this tick and its level.
pub open spec fn deferred_step(
    cs: CmdState,
    held: bool,
    pressed: bool,
    interrupter_active: bool,
    has_long: bool,
    max_window: Option<u64>,
    now: u64,
) -> (CmdState, bool) {
    let cs = if pressed {
        if interrupter_active {
            CmdState { deferred: Deferred::Done, ..cs }
        } else {
            CmdState { deferred: Deferred::Pending, deferred_start: Some(now), ..cs }
        }
    } else {
        cs
    };
    match cs.deferred {
        Deferred::Pending => if interrupter_active {
            (CmdState { deferred: Deferred::Done, ..cs }, false)
        } else {
            let start = match cs.deferred_start {
                Some(t) => t,
                None => now,
            };
            let window = match max_window {
                Some(w) => w,
                None => 0,
            };
            let window_closed = sat_sub(now, start) >= window;
            if held {
                if !has_long && window_closed {
                    (CmdState { deferred: Deferred::Holding, ..cs }, true)
                } else {
                    (cs, false)
                }
            } else if window_closed {
                (
                    CmdState {
                        tap_until: Some((now + TAP_MS) as u64),
                        deferred: Deferred::Done,
                        ..cs
                    },
                    true,
                )
            } else {
                (cs, false)
            }
        },
        Deferred::Holding => if interrupter_active {
            (CmdState { deferred: Deferred::Done, ..cs }, false)
        } else if !held {
            (CmdState { deferred: Deferred::Idle, ..cs }, false)
        } else {
            (cs, true)
        },
        _ => (cs, tap_on(cs.tap_until, now)),
    }
}

/// A command's resolved activation (before toggle/turbo) and its latches after resolving it.
pub open spec fn resolve_level(
    cmd: CompiledCommand,
    cs: CmdState,
    i: int,
    raw: bool,
    n: NodeTick,
    f: NodeFacts,
) -> (CmdState, bool) {
    match cmd.activator {
        Activator::Long { .. } | Activator::Double { .. } => (
            cs,
            raw && (f.winner == Some(i) || sat_sub(n.now, fire_time(cs, n.now)) < TAP_MS),
        ),
        Activator::Start => {
            let tu = if n.pressed {
                Some((n.now + TAP_MS) as u64)
            } else {
                cs.tap_until
            };
            (CmdState { tap_until: tu, ..cs }, tap_on(tu, n.now))
        },
        Activator::Release => {
            let tu = if n.released {
                Some((n.now + TAP_MS) as u64)
            } else {
                cs.tap_until
            };
            (CmdState { tap_until: tu, ..cs }, tap_on(tu, n.now))
        },
        Activator::Regular { interruptible } => if !interruptible || !(f.has_long
            || f.max_window.is_some()) {
            (cs, n.held)
        } else {
            deferred_step(
                cs,
                n.held,
                n.pressed,
                f.interrupter_active,
                f.has_long,
                f.max_window,
                n.now,
            )
        },
    }
}

/// `toggle`: flip a latch on each rising edge of the raw activation; output the latch.
pub open spec fn toggle_step(raw: bool, toggle: bool, cs: CmdState) -> (CmdState, bool) {
    if !toggle {
        (cs, raw)
    } else {
        let on = if raw && !cs.raw_prev {
            !cs.toggle_on
        } else {
            cs.toggle_on
        };
        (CmdState { toggle_on: on, raw_prev: raw, ..cs }, on)
    }
}

/// The half-period of a turbo square wave.
pub open spec fn turbo_half(t: Turbo) -> int {
    if t.interval_ms / 2 >= 1 {
        (t.interval_ms / 2) as int
    } else {
        1
    }
}

/// `turbo`: while active, a 50%-duty square wave of period `interval_ms` starting on.
pub open spec fn turbo_step(active: bool, turbo: Option<Turbo>, cs: CmdState, now: u64) -> (
    CmdState,
    bool,
) {
    match turbo {
        None => (cs, active),
        Some(t) => if !active {
            (CmdState { turbo_start: None, ..cs }, false)
        } else {
            let start = match cs.turbo_start {
                Some(s) => s,
                None => now,
            };
            (CmdState { turbo_start: Some(start), ..cs }, (sat_sub(now, start) / turbo_half(t)) % 2
                == 0)
        },
    }
}

/// Whether a command haptic fires for an output going `prev` → `out`.
pub open spec fn haptic_fires(h: Haptics, prev: bool, out: bool) -> bool {
    match h.on {
        HapticEdge::Off => false,
        HapticEdge::OnPress => out && !prev,
        HapticEdge::OnRelease => !out && prev,
        HapticEdge::Both => out != prev,
    }
}

/// The post-processing of a resolved activation: toggle, then turbo, then the haptic edge latch.
pub open spec fn post_level(st: CommandSettings, cs: CmdState, active: bool, now: u64) -> (
    CmdState,
    bool,
) {
    let (cs_b, toggled) = toggle_step(active, st.toggle, cs);
    let (cs_c, out) = turbo_step(toggled, st.turbo, cs_b, now);
    (CmdState { haptic_prev: out, ..cs_c }, out)
}

/// Pass 2 on one command: its output this tick and its latches afterwards.
pub open spec fn pass2(
    cmd: CompiledCommand,
    cs: CmdState,
    i: int,
    raw: bool,
    n: NodeTick,
    f: NodeFacts,
) -> (CmdState, bool) {
    let (cs_a, active) = resolve_level(cmd, cs, i, raw, n, f);
    post_level(cmd.settings, cs_a, active, n.now)
}

/// Command `i`'s latches after the tick and its output.
pub open spec fn step_cmd(cmds: Seq<CompiledCommand>, old: Seq<CmdState>, n: NodeTick, i: int) -> (
    CmdState,
    bool,
) {
    pass2(
        cmds[i],
        cs1_of(cmds, old, n, i),
        i,
        raw_at(cmds, old, n, i),
        n,
        node_facts(cmds, old, n),
    )
}

/// The actions fired by commands `0..k`, in order.
pub open spec fn fired_upto(cmds: Seq<CompiledCommand>, old: Seq<CmdState>, n: NodeTick, k: int) -> Seq<
    CompiledAction,
>
    decreases k,
{
    if k <= 0 {
        Seq::empty()
    } else {
        fired_upto(cmds, old, n, k - 1) + if step_cmd(cmds, old, n, k - 1).1 {
            cmds[k - 1].actions@
        } else {
            Seq::empty()
        }
    }
}

/// The haptic pulses commands `0..k` request, in order.
pub open spec fn haptics_upto(
    cmds: Seq<CompiledCommand>,
    old: Seq<CmdState>,
    n: NodeTick,
    side: Side,
    k: int,
) -> Seq<HapticReq>
    decreases k,
{
    if k <= 0 {
        Seq::empty()
    } else {
        haptics_upto(cmds, old, n, side, k - 1) + if haptic_fires(
            cmds[k - 1].settings.haptics,
            cs_at(old, k - 1).haptic_prev,
            step_cmd(cmds, old, n, k - 1).1,
        ) {
            seq![HapticReq { side, strength: cmds[k - 1].settings.haptics.strength }]
        } else {
            Seq::empty()
        }
    }
}

/// The layer/set ops after commands `0..k` fired by `node` applied their actions (a firing
/// command's persistent changes only on its output's rising edge).
pub open spec fn ops_upto(
    cmds: Seq<CompiledCommand>,
    old: Seq<CmdState>,
    n: NodeTick,
    node: NodeHeld,
    ops: OpsView,
    k: int,
) -> OpsView
    decreases k,
{
    if k <= 0 {
        ops
    } else {
        let p = ops_upto(cmds, old, n, node, ops, k - 1);
        if step_cmd(cmds, old, n, k - 1).1 {
            apply_ops(p, cmds[k - 1].actions@, node, !cs_at(old, k - 1).haptic_prev)
        } else {
            p
        }
    }
}

/// The output leaves a list of actions holds.
pub open spec fn holds_key(acts: Seq<CompiledAction>, k: Key) -> bool {
    acts.contains(CompiledAction::Key(k))
}

pub open spec fn holds_mouse(acts: Seq<CompiledAction>, b: MouseButton) -> bool {
    acts.contains(CompiledAction::MouseButton(b))
}

pub open spec fn holds_pad(acts: Seq<CompiledAction>, b: GamepadButton) -> bool {
    acts.contains(CompiledAction::GamepadButton(b))
}

/// `after` holds what `before` held plus every output leaf of `acts`.
pub open spec fn levels_add(before: Levels, after: Levels, acts: Seq<CompiledAction>) -> bool {
    &&& forall|k: Key| #[trigger] after.keys.contains(k) == (before.keys.contains(k) || holds_key(acts, k))
    &&& forall|b: MouseButton| #[trigger] after.mouse_buttons.contains(b) == (
    before.mouse_buttons.contains(b) || holds_mouse(acts, b))
    &&& forall|b: GamepadButton| #[trigger] after.pad_buttons.contains(b) == (
    before.pad_buttons.contains(b) || holds_pad(acts, b))
}


proof fn lemma_contains_push<T>(s: Seq<T>, a: T, x: T)
    ensures
        s.push(a).contains(x) == (s.contains(x) || a == x),
{
    if s.contains(x) {
        let k = choose|k: int| 0 <= k < s.len() && s[k] == x;
        assert(s.push(a)[k] == x);
    }
    if a == x {
        assert(s.push(a)[s.len() as int] == x);
    }
    if s.push(a).contains(x) && a != x {
        let k = choose|k: int| 0 <= k < s.push(a).len() && s.push(a)[k] == x;
        assert(s[k] == x);
    }
}

proof fn lemma_apply_ops_push(ops: OpsView, s: Seq<CompiledAction>, a: CompiledAction, node: NodeHeld, rising: bool)
    ensures
        apply_ops(ops, s.push(a), node, rising) == apply_op_edge(apply_ops(ops, s, node, rising), a, node, rising),
{
    assert(s.push(a).drop_last() =~= s);
}

/// Apply one action of a firing command: output leaves become desired levels; layer/set actions
/// are queued into `ops` for the next tick (`HoldLayer` carries its trigger node so it can latch
/// to that node's held-state). A persistent change (`ChangeActionSet`/`AddLayer`/`RemoveLayer`)
/// is taken only on the command output's rising edge (`rising`), so a tap that plays out over
/// several ticks changes the layer state once. `Nothing` does nothing.
pub fn apply_action(
    action: &CompiledAction,
    node: &NodeHeld,
    rising: bool,
    desired: &mut DesiredLevels,
    ops: &mut LayerOps,
)
    requires
        old(desired).wf(),
        old(ops).wf(),
    ensures
        final(desired).wf(),
        final(ops).wf(),
        levels_add(old(desired).levels(), final(desired).levels(), seq![*action]),
        final(ops).view() == apply_op_edge(old(ops).view(), *action, *node, rising),
{
    let ghost before = desired.levels();
    match action {
        CompiledAction::Key(k) => desired.press_key(*k),
        CompiledAction::MouseButton(b) => desired.press_mouse(*b),
        CompiledAction::GamepadButton(b) => desired.press_pad(*b),
        CompiledAction::ChangeActionSet(_) | CompiledAction::AddLayer(_) | CompiledAction::RemoveLayer(_) => {
            if rising {
                ops.apply(action, node);
            }
        },
        _ => ops.apply(action, node),
    }
    proof {
        let acts = seq![*action];
        assert forall|k: Key| #[trigger] holds_key(acts, k) == (*action == CompiledAction::Key(k)) by {
            lemma_contains_push(Seq::<CompiledAction>::empty(), *action, CompiledAction::Key(k));
            assert(Seq::<CompiledAction>::empty().push(*action) == acts);
        }
        assert forall|b: MouseButton| #[trigger] holds_mouse(acts, b) == (*action
            == CompiledAction::MouseButton(b)) by {
            lemma_contains_push(Seq::<CompiledAction>::empty(), *action, CompiledAction::MouseButton(b));
            assert(Seq::<CompiledAction>::empty().push(*action) == acts);
        }
        assert forall|b: GamepadButton| #[trigger] holds_pad(acts, b) == (*action
            == CompiledAction::GamepadButton(b)) by {
            lemma_contains_push(
                Seq::<CompiledAction>::empty(),
                *action,
                CompiledAction::GamepadButton(b),
            );
            assert(Seq::<CompiledAction>::empty().push(*action) == acts);
        }
    }
}

/// Whether a tap window is still open at `now`.
pub fn tap_active(cs: &CmdState, now: &Tick) -> (r: bool)
    ensures
        r == tap_on(cs.tap_until, now.0),
{
    match cs.tap_until {
        Some(tu) => now.0 < tu,
        None => false,
    }
}

/// `toggle`: flip a latch on each rising edge of the raw activation; output the latch.
pub fn apply_toggle(raw: bool, toggle: bool, cs: &mut CmdState) -> (r: bool)
    ensures
        (*final(cs), r) == toggle_step(raw, toggle, *old(cs)),
{
    if !toggle {
        return raw;
    }
    if raw && !cs.raw_prev {
        cs.toggle_on = !cs.toggle_on;
    }
    cs.raw_prev = raw;
    cs.toggle_on
}

/// `turbo`: while `active`, a 50%-duty square wave of period `interval_ms` (on at once);
/// releases the pulse train when `active` drops.
pub fn apply_turbo(active: bool, turbo: Option<&Turbo>, cs: &mut CmdState, now: &Tick) -> (r: bool)
    ensures
        (*final(cs), r) == turbo_step(
            active,
            match turbo {
                Some(t) => Some(*t),
                None => None,
            },
            *old(cs),
            now.0,
        ),
{
    let turbo = match turbo {
        Some(t) => t,
        None => {
            return active;
        },
    };
    if !active {
        cs.turbo_start = None;
        return false;
    }
    if cs.turbo_start.is_none() {
        cs.turbo_start = Some(now.0);
    }
    let start = match cs.turbo_start {
        Some(s) => s,
        None => now.0,
    };
    let half_raw = turbo.interval_ms as u64 / 2;
    let half = if half_raw >= 1 {
        half_raw
    } else {
        1
    };
    let elapsed = if now.0 >= start {
        now.0 - start
    } else {
        0
    };
    (elapsed / half) % 2 == 0
}

/// Push a command-haptic pulse when the command's output crosses the configured edge, tracking
/// the previous level in `cs.haptic_prev`. `Off` never fires (but still advances the edge state).
pub fn emit_haptic(
    h: &Haptics,
    cs: &mut CmdState,
    out: bool,
    side: Side,
    haptics: &mut Vec<HapticReq>,
)
    ensures
        *final(cs) == (CmdState { haptic_prev: out, ..*old(cs) }),
        final(haptics)@ == old(haptics)@ + if haptic_fires(*h, old(cs).haptic_prev, out) {
            seq![HapticReq { side, strength: h.strength }]
        } else {
            Seq::<HapticReq>::empty()
        },
{
    let rising = out && !cs.haptic_prev;
    let falling = !out && cs.haptic_prev;
    let fire = match h.on {
        HapticEdge::Off => false,
        HapticEdge::OnPress => rising,
        HapticEdge::OnRelease => falling,
        HapticEdge::Both => rising || falling,
    };
    let ghost before = haptics@;
    if fire {
        haptics.push(HapticReq { side, strength: h.strength });
    }
    cs.haptic_prev = out;
    assert(haptics@ =~= before + if haptic_fires(*h, old(cs).haptic_prev, out) {
        seq![HapticReq { side, strength: h.strength }]
    } else {
        Seq::<HapticReq>::empty()
    });
}

/// The interruptible-`Regular` state machine (only reached when the node has an interrupter).
/// It presses-and-holds as soon as it is safe from interruption, else taps, else nothing.
pub fn regular_deferred(
    cs: &mut CmdState,
    held: bool,
    pressed: bool,
    interrupter_active: bool,
    has_long: bool,
    max_double_window: Option<u64>,
    now: &Tick,
) -> (r: bool)
    requires
        now.0 <= u64::MAX - TAP_MS,
    ensures
        (*final(cs), r) == deferred_step(
            *old(cs),
            held,
            pressed,
            interrupter_active,
            has_long,
            max_double_window,
            now.0,
        ),
{
    if pressed {
        if interrupter_active {
            cs.deferred = Deferred::Done;
        } else {
            cs.deferred = Deferred::Pending;
            cs.deferred_start = Some(now.0);
        }
    }
    match cs.deferred {
        Deferred::Pending => {
            if interrupter_active {
                cs.deferred = Deferred::Done;
                return false;
            }
            let start = match cs.deferred_start {
                Some(t) => t,
                None => now.0,
            };
            let window = match max_double_window {
                Some(w) => w,
                None => 0,
            };
            let elapsed = if now.0 >= start {
                now.0 - start
            } else {
                0
            };
            let window_closed = elapsed >= window;
            if held {
                if !has_long && window_closed {
                    cs.deferred = Deferred::Holding;
                    true
                } else {
                    false
                }
            } else if window_closed {
                cs.tap_until = Some(now.0 + TAP_MS);
                cs.deferred = Deferred::Done;
                true
            } else {
                false
            }
        },
        Deferred::Holding => {
            if interrupter_active {
                cs.deferred = Deferred::Done;
                false
            } else if !held {
                cs.deferred = Deferred::Idle;
                false
            } else {
                true
            }
        },
        _ => tap_active(cs, now),
    }
}

/// Pass 1 on one command: the `Double` qualification, the hold-taker fire time, and whether it
/// is raw-active.
fn pass1_exec(
    a: &Activator,
    cs: CmdState,
    held: bool,
    pressed: bool,
    released: bool,
    press_start: Option<u64>,
    prev_press: Option<u64>,
    now: u64,
) -> (r: (CmdState, bool))
    ensures
        r.0 == pass1(*a, cs, NodeTick { held, pressed, released, press_start, prev_press, now }),
        r.1 == raw_of(*a, r.0, NodeTick { held, pressed, released, press_start, prev_press, now }),
{
    let mut cs = cs;
    let active = match a {
        Activator::Long { hold_ms } => held && match press_start {
            Some(ps) => {
                let elapsed = if now >= ps {
                    now - ps
                } else {
                    0
                };
                elapsed >= *hold_ms as u64
            },
            None => false,
        },
        Activator::Double { window_ms } => {
            if pressed {
                cs.double_active = match prev_press {
                    Some(pp) => {
                        let elapsed = if now >= pp {
                            now - pp
                        } else {
                            0
                        };
                        elapsed <= *window_ms as u64
                    },
                    None => false,
                };
            } else if released {
                cs.double_active = false;
            }
            held && cs.double_active
        },
        _ => false,
    };
    if active && cs.hold_since.is_none() {
        cs.hold_since = Some(now);
    } else if !active {
        cs.hold_since = None;
    }
    (cs, active)
}

/// A command's resolved activation (before toggle/turbo): the winner holds, a superseded
/// hold-taker floors to a minimum click, taps play out their window, and a `Regular` holds —
/// deferred when the node carries an interrupter and the command is interruptible.
fn resolve_level_exec(
    cmd: &CompiledCommand,
    cs: &mut CmdState,
    i: usize,
    raw: bool,
    n: &NodeTick,
    has_long: bool,
    max_window: Option<u64>,
    interrupter_active: bool,
    winner: Option<usize>,
    now: &Tick,
    Ghost(f): Ghost<NodeFacts>,
) -> (r: bool)
    requires
        now.0 <= u64::MAX - TAP_MS,
        n.now == now.0,
        f == (NodeFacts {
            has_long,
            max_window,
            interrupter_active,
            winner: match winner {
                Some(w) => Some(w as int),
                None => None,
            },
        }),
    ensures
        (*final(cs), r) == resolve_level(*cmd, *old(cs), i as int, raw, *n, f),
{
    match &cmd.activator {
        Activator::Long { .. } | Activator::Double { .. } => {
            let hs = match cs.hold_since {
                Some(t) => t,
                None => now.0,
            };
            let elapsed = if now.0 >= hs {
                now.0 - hs
            } else {
                0
            };
            let is_winner = match winner {
                Some(w) => w == i,
                None => false,
            };
            raw && (is_winner || elapsed < TAP_MS)
        },
        Activator::Start => {
            if n.pressed {
                cs.tap_until = Some(now.0 + TAP_MS);
            }
            tap_active(cs, now)
        },
        Activator::Release => {
            if n.released {
                cs.tap_until = Some(now.0 + TAP_MS);
            }
            tap_active(cs, now)
        },
        Activator::Regular { interruptible } => {
            let has_interrupter = has_long || max_window.is_some();
            if !*interruptible || !has_interrupter {
                n.held
            } else {
                regular_deferred(cs, n.held, n.pressed, interrupter_active, has_long, max_window, now)
            }
        },
    }
}


proof fn lemma_contains_concat<T>(s: Seq<T>, t: Seq<T>, x: T)
    ensures
        (s + t).contains(x) == (s.contains(x) || t.contains(x)),
{
    if s.contains(x) {
        let k = choose|k: int| 0 <= k < s.len() && s[k] == x;
        assert((s + t)[k] == x);
    }
    if t.contains(x) {
        let k = choose|k: int| 0 <= k < t.len() && t[k] == x;
        assert((s + t)[s.len() + k] == x);
    }
    if (s + t).contains(x) {
        let k = choose|k: int| 0 <= k < (s + t).len() && (s + t)[k] == x;
        if k < s.len() {
            assert(s[k] == x);
        } else {
            assert(t[k - s.len()] == x);
        }
    }
}

pub proof fn lemma_levels_add_trans(d0: Levels, d1: Levels, d2: Levels, s: Seq<CompiledAction>, t: Seq<CompiledAction>)
    requires
        levels_add(d0, d1, s),
        levels_add(d1, d2, t),
    ensures
        levels_add(d0, d2, s + t),
{
    assert forall|k: Key| #[trigger] d2.keys.contains(k) == (d0.keys.contains(k) || holds_key(s + t, k)) by {
        lemma_contains_concat(s, t, CompiledAction::Key(k));
    }
    assert forall|b: MouseButton| #[trigger] d2.mouse_buttons.contains(b) == (d0.mouse_buttons.contains(b)
        || holds_mouse(s + t, b)) by {
        lemma_contains_concat(s, t, CompiledAction::MouseButton(b));
    }
    assert forall|b: GamepadButton| #[trigger] d2.pad_buttons.contains(b) == (d0.pad_buttons.contains(b)
        || holds_pad(s + t, b)) by {
        lemma_contains_concat(s, t, CompiledAction::GamepadButton(b));
    }
}

/// Apply every action of a firing command, in order.
fn apply_actions(
    acts: &Vec<CompiledAction>,
    node: &NodeHeld,
    rising: bool,
    desired: &mut DesiredLevels,
    ops: &mut LayerOps,
)
    requires
        old(desired).wf(),
        old(ops).wf(),
    ensures
        final(desired).wf(),
        final(ops).wf(),
        levels_add(old(desired).levels(), final(desired).levels(), acts@),
        final(ops).view() == apply_ops(old(ops).view(), acts@, *node, rising),
{
    let ghost d0 = desired.levels();
    let ghost ops0 = ops.view();
    let mut j: usize = 0;
    assert(acts@.take(0) =~= Seq::<CompiledAction>::empty());
    while j < acts.len()
        invariant
            0 <= j <= acts@.len(),
            desired.wf(),
            ops.wf(),
            levels_add(d0, desired.levels(), acts@.take(j as int)),
            ops.view() == apply_ops(ops0, acts@.take(j as int), *node, rising),
        decreases acts.len() - j,
    {
        let ghost d1 = desired.levels();
        let ghost o1 = ops.view();
        apply_action(&acts[j], node, rising, desired, ops);
        proof {
            assert(acts@.take(j + 1) =~= acts@.take(j as int) + seq![acts@[j as int]]);
            lemma_levels_add_trans(d0, d1, desired.levels(), acts@.take(j as int), seq![acts@[j as int]]);
            lemma_apply_ops_push(ops0, acts@.take(j as int), acts@[j as int], *node, rising);
            assert(acts@.take(j as int).push(acts@[j as int]) =~= acts@.take(j + 1));
        }
        j += 1;
    }
    assert(acts@.take(acts@.len() as int) =~= acts@);
}

/// Post-process a resolved activation (toggle, turbo) and fire the command's haptic edge.
fn post_process(
    st: &CommandSettings,
    cs: &mut CmdState,
    active: bool,
    now: &Tick,
    side: Side,
    haptics: &mut Vec<HapticReq>,
) -> (out: bool)
    ensures
        (*final(cs), out) == post_level(*st, *old(cs), active, now.0),
        final(haptics)@ == old(haptics)@ + if haptic_fires(st.haptics, old(cs).haptic_prev, out) {
            seq![HapticReq { side, strength: st.haptics.strength }]
        } else {
            Seq::<HapticReq>::empty()
        },
{
    let ghost cs_in = *cs;
    let toggled = apply_toggle(active, st.toggle, cs);
    let ghost cs_b = *cs;
    let turbo = match &st.turbo {
        Some(t) => Some(t),
        None => None,
    };
    let out = apply_turbo(toggled, turbo, cs, now);
    proof {
        let (pb, ptog) = toggle_step(active, st.toggle, cs_in);
        assert(pb == cs_b && ptog == toggled);
    }
    emit_haptic(&st.haptics, cs, out, side, haptics);
    out
}

/// Pass 2 on one command: resolve its level and post-process it (toggle, turbo, haptics).
fn step_command(
    cmd: &CompiledCommand,
    cs: CmdState,
    i: usize,
    raw: bool,
    n: &NodeTick,
    has_long: bool,
    max_window: Option<u64>,
    interrupter_active: bool,
    winner: Option<usize>,
    now: &Tick,
    side: Side,
    haptics: &mut Vec<HapticReq>,
    Ghost(f): Ghost<NodeFacts>,
) -> (r: (CmdState, bool))
    requires
        now.0 <= u64::MAX - TAP_MS,
        n.now == now.0,
        f == (NodeFacts {
            has_long,
            max_window,
            interrupter_active,
            winner: match winner {
                Some(w) => Some(w as int),
                None => None,
            },
        }),
    ensures
        r == pass2(*cmd, cs, i as int, raw, *n, f),
        final(haptics)@ == old(haptics)@ + if haptic_fires(cmd.settings.haptics, cs.haptic_prev, r.1) {
            seq![HapticReq { side, strength: cmd.settings.haptics.strength }]
        } else {
            Seq::<HapticReq>::empty()
        },
{
    let mut cs = cs;
    let active = resolve_level_exec(
        cmd,
        &mut cs,
        i,
        raw,
        n,
        has_long,
        max_window,
        interrupter_active,
        winner,
        now,
        Ghost(f),
    );
    let out = post_process(&cmd.settings, &mut cs, active, now, side, haptics);
    (cs, out)
}

proof fn lemma_levels_add_none(d: Levels)
    ensures
        levels_add(d, d, Seq::empty()),
{
}

/// The latches a slot holds after [`eval_commands`] ran `cmds` on it (`old` = before).
pub open spec fn stepped_states(cmds: Seq<CompiledCommand>, old: Seq<CmdState>, n: NodeTick) -> Seq<
    CmdState,
> {
    Seq::new(
        if old.len() >= cmds.len() {
            old.len()
        } else {
            cmds.len()
        },
        |j: int|
            if j < cmds.len() {
                step_cmd(cmds, old, n, j).0
            } else {
                old[j]
            },
    )
}

/// The slot after one tick of its node held at `held` (`cmds` its commands).
pub open spec fn stepped_slot(cmds: Seq<CompiledCommand>, slot: SlotView, held: bool, now: u64) -> SlotView {
    let n = node_tick(slot, held, now);
    SlotView {
        prev_held: held,
        press_start: n.press_start,
        last_press: if n.pressed {
            Some(now)
        } else {
            slot.last_press
        },
        commands: stepped_states(cmds, slot.commands, n),
    }
}

/// Advance a node's commands one tick and apply the firing ones' actions — output leaves into
/// `desired`, layer/set actions into `ops` (for the next tick), command-haptic pulses into
/// `haptics`.
///
/// `held` is the node's digital level this tick; `node` describes how to re-derive that held
/// state later (for `HoldLayer` latching); `slot` carries its retained timing and latches.
pub fn eval_commands(
    commands: &Vec<CompiledCommand>,
    held: bool,
    node: &NodeHeld,
    side: Side,
    slot: &mut SlotState,
    now: &Tick,
    desired: &mut DesiredLevels,
    ops: &mut LayerOps,
    haptics: &mut Vec<HapticReq>,
)
    requires
        now.0 <= u64::MAX - TAP_MS,
        old(desired).wf(),
        old(ops).wf(),
    ensures
        final(desired).wf(),
        final(ops).wf(),
        final(slot).view() == stepped_slot(commands@, old(slot).view(), held, now.0),
        levels_add(
            old(desired).levels(),
            final(desired).levels(),
            fired_upto(
                commands@,
                old(slot).commands@,
                node_tick(old(slot).view(), held, now.0),
                commands@.len() as int,
            ),
        ),
        final(ops).view() == ops_upto(
            commands@,
            old(slot).commands@,
            node_tick(old(slot).view(), held, now.0),
            *node,
            old(ops).view(),
            commands@.len() as int,
        ),
        final(haptics)@ == old(haptics)@ + haptics_upto(
            commands@,
            old(slot).commands@,
            node_tick(old(slot).view(), held, now.0),
            side,
            commands@.len() as int,
        ),
{
    let ghost cmds = commands@;
    let ghost olds = slot.commands@;
    let ghost nt = node_tick(slot.view(), held, now.0);
    let ghost d0 = desired.levels();
    let ghost ops0 = ops.view();
    let ghost h0 = haptics@;
    let n = commands.len();
    let pressed = held && !slot.prev_held;
    let released = !held && slot.prev_held;

    // Node facts: the interrupters present and the widest double window.
    let mut has_long = false;
    let mut max_window: Option<u64> = None;
    let mut i: usize = 0;
    while i < n
        invariant
            0 <= i <= n,
            n == cmds.len(),
            cmds == commands@,
            has_long == exists|j: int| 0 <= j < i && is_long(#[trigger] cmds[j].activator),
            max_window == max_window_upto(cmds, i as int),
        decreases n - i,
    {
        match &commands[i].activator {
            Activator::Long { .. } => {
                has_long = true;
            },
            Activator::Double { window_ms } => {
                let w = *window_ms as u64;
                max_window = Some(
                    match max_window {
                        None => w,
                        Some(x) => if x >= w {
                            x
                        } else {
                            w
                        },
                    },
                );
            },
            _ => {},
        }
        i += 1;
    }

    // Press timing; `last_press` keeps the previous press start for the double window.
    let prev_press = slot.last_press;
    if pressed {
        slot.press_start = Some(now.0);
        slot.last_press = Some(now.0);
    } else if released {
        slot.press_start = None;
    }
    let press_start = slot.press_start;
    let ghost lp = slot.last_press;
    assert(press_start == nt.press_start && prev_press == nt.prev_press);
    assert(lp == if nt.pressed {
        Some(now.0)
    } else {
        old(slot).last_press
    });
    while slot.commands.len() < n
        invariant
            n == cmds.len(),
            slot.press_start == press_start,
            slot.last_press == lp,
            olds.len() <= slot.commands@.len(),
            slot.commands@.len() <= if olds.len() >= n {
                olds.len() as int
            } else {
                n as int
            },
            forall|j: int| 0 <= j < slot.commands@.len() ==> #[trigger] slot.commands@[j] == cs_at(olds, j) || j >= n,
            forall|j: int| 0 <= j < slot.commands@.len() ==> #[trigger] slot.commands@[j] == cs_at(olds, j),
        decreases n - slot.commands.len(),
    {
        slot.commands.push(CmdState::new());
    }

    // Pass 1: raw activity of the hold-takers and the fire-time takeover winner.
    let mut raws: Vec<bool> = Vec::new();
    let mut winner: Option<(u64, usize)> = None;
    let mut i: usize = 0;
    while i < n
        invariant
            0 <= i <= n,
            n == cmds.len(),
            cmds == commands@,
            nt == (NodeTick { held, pressed, released, press_start, prev_press, now: now.0 }),
            slot.press_start == press_start,
            slot.last_press == lp,
            slot.commands@.len() == if olds.len() >= n {
                olds.len() as int
            } else {
                n as int
            },
            forall|j: int| 0 <= j < i ==> #[trigger] slot.commands@[j] == cs1_of(cmds, olds, nt, j),
            forall|j: int| i <= j < slot.commands@.len() ==> #[trigger] slot.commands@[j] == cs_at(olds, j),
            raws@.len() == i,
            forall|j: int| 0 <= j < i ==> #[trigger] raws@[j] == raw_at(cmds, olds, nt, j),
            winner == match winner_upto(cmds, olds, nt, i as int) {
                Some((t, k)) => Some((t, k as usize)),
                None => None::<(u64, usize)>,
            },
            winner_upto(cmds, olds, nt, i as int) matches Some((_, k)) ==> 0 <= k < i,
        decreases n - i,
    {
        let cs = slot.commands[i];
        let (cs1, active) = pass1_exec(
            &commands[i].activator,
            cs,
            held,
            pressed,
            released,
            press_start,
            prev_press,
            now.0,
        );
        slot.commands.set(i, cs1);
        raws.push(active);
        if active {
            let hs = match cs1.hold_since {
                Some(t) => t,
                None => now.0,
            };
            let better = match winner {
                None => true,
                Some((whs, _)) => hs >= whs,
            };
            if better {
                winner = Some((hs, i));
            }
        }
        i += 1;
    }
    let ntx = NodeTick { held, pressed, released, press_start, prev_press, now: now.0 };
    let winner_idx: Option<usize> = match winner {
        Some((_, k)) => Some(k),
        None => None,
    };
    let mut interrupter_active = false;
    let mut i: usize = 0;
    while i < n
        invariant
            0 <= i <= n,
            n == cmds.len(),
            raws@.len() == n,
            forall|j: int| 0 <= j < n ==> #[trigger] raws@[j] == raw_at(cmds, olds, nt, j),
            interrupter_active == exists|j: int| 0 <= j < i && #[trigger] raw_at(cmds, olds, nt, j),
        decreases n - i,
    {
        if raws[i] {
            interrupter_active = true;
        }
        i += 1;
    }
    let ghost facts = node_facts(cmds, olds, nt);
    assert(facts.has_long == has_long);
    assert(facts.max_window == max_window);
    assert(facts.interrupter_active == interrupter_active);

    // Pass 2: resolve each command's output level and apply it.
    let mut i: usize = 0;
    while i < n
        invariant
            0 <= i <= n,
            n == cmds.len(),
            cmds == commands@,
            nt == (NodeTick { held, pressed, released, press_start, prev_press, now: now.0 }),
            ntx == nt,
            slot.press_start == press_start,
            slot.last_press == lp,
            facts == node_facts(cmds, olds, nt),
            facts.has_long == has_long,
            facts.max_window == max_window,
            facts.interrupter_active == interrupter_active,
            facts.winner == match winner_idx {
                Some(w) => Some(w as int),
                None => None::<int>,
            },
            now.0 <= u64::MAX - TAP_MS,
            raws@.len() == n,
            forall|j: int| 0 <= j < n ==> #[trigger] raws@[j] == raw_at(cmds, olds, nt, j),
            slot.commands@.len() == if olds.len() >= n {
                olds.len() as int
            } else {
                n as int
            },
            forall|j: int| 0 <= j < i ==> #[trigger] slot.commands@[j] == step_cmd(cmds, olds, nt, j).0,
            forall|j: int| i <= j < n ==> #[trigger] slot.commands@[j] == cs1_of(cmds, olds, nt, j),
            forall|j: int| n <= j < slot.commands@.len() ==> #[trigger] slot.commands@[j] == olds[j],
            desired.wf(),
            ops.wf(),
            levels_add(d0, desired.levels(), fired_upto(cmds, olds, nt, i as int)),
            ops.view() == ops_upto(cmds, olds, nt, *node, ops0, i as int),
            haptics@ == h0 + haptics_upto(cmds, olds, nt, side, i as int),
        decreases n - i,
    {
        let cs = slot.commands[i];
        let ghost dprev = desired.levels();
        let ghost oprev = ops.view();
        let (cs2, out) = step_command(
            &commands[i],
            cs,
            i,
            raws[i],
            &ntx,
            has_long,
            max_window,
            interrupter_active,
            winner_idx,
            now,
            side,
            haptics,
            Ghost(facts),
        );
        if out {
            apply_actions(&commands[i].actions, node, !cs.haptic_prev, desired, ops);
        } else {
            proof {
                lemma_levels_add_none(dprev);
            }
        }
        proof {
            assert(cs == cs1_of(cmds, olds, nt, i as int));
            assert((cs2, out) == step_cmd(cmds, olds, nt, i as int));
        }
        slot.commands.set(i, cs2);
        proof {
            let f = fired_upto(cmds, olds, nt, i as int);
            let a = if out {
                cmds[i as int].actions@
            } else {
                Seq::<CompiledAction>::empty()
            };
            assert(fired_upto(cmds, olds, nt, i + 1) == f + a);
            lemma_levels_add_trans(d0, dprev, desired.levels(), f, a);
            assert(haptics_upto(cmds, olds, nt, side, i + 1) == haptics_upto(cmds, olds, nt, side, i as int)
                + if haptic_fires(cmds[i as int].settings.haptics, cs_at(olds, i as int).haptic_prev, out) {
                seq![HapticReq { side, strength: cmds[i as int].settings.haptics.strength }]
            } else {
                Seq::<HapticReq>::empty()
            });
        }
        i += 1;
    }
    slot.prev_held = held;
    proof {
        assert(slot.commands@ =~= stepped_states(cmds, olds, nt));
        assert(slot.press_start == nt.press_start);
        assert(slot.last_press == if nt.pressed {
            Some(now.0)
        } else {
            old(slot).last_press
        });
        assert(slot.view() =~= stepped_slot(cmds, old(slot).view(), held, now.0));
    }
}
/// A `Long` command (without `toggle`) never outputs before its node has been held for
/// `hold_ms` in the current press.
pub proof fn law_long_waits_for_hold(
    cmds: Seq<CompiledCommand>,
    old: Seq<CmdState>,
    n: NodeTick,
    i: int,
    hold_ms: u32,
)
    requires
        0 <= i < cmds.len(),
        cmds[i].activator == (Activator::Long { hold_ms }),
        !cmds[i].settings.toggle,
    ensures
        step_cmd(cmds, old, n, i).1 ==> n.held && n.press_start is Some && sat_sub(
            n.now,
            n.press_start.unwrap(),
        ) >= hold_ms,
{
}

/// A plain (not toggled, not turbo) `Start` command taps on the press edge: pressing fires it,
/// and while it is on, its tap window is open.
pub proof fn law_start_taps_on_press(cmds: Seq<CompiledCommand>, old: Seq<CmdState>, n: NodeTick, i: int)
    requires
        0 <= i < cmds.len(),
        cmds[i].activator == Activator::Start,
        !cmds[i].settings.toggle,
        cmds[i].settings.turbo is None,
        n.now <= u64::MAX - TAP_MS,
    ensures
        n.pressed ==> step_cmd(cmds, old, n, i).1,
        step_cmd(cmds, old, n, i).1 ==> tap_on(step_cmd(cmds, old, n, i).0.tap_until, n.now),
{
}

/// A plain `Release` command taps on the release edge.
pub proof fn law_release_taps_on_release(cmds: Seq<CompiledCommand>, old: Seq<CmdState>, n: NodeTick, i: int)
    requires
        0 <= i < cmds.len(),
        cmds[i].activator == Activator::Release,
        !cmds[i].settings.toggle,
        cmds[i].settings.turbo is None,
        n.now <= u64::MAX - TAP_MS,
    ensures
        n.released ==> step_cmd(cmds, old, n, i).1,
        step_cmd(cmds, old, n, i).1 ==> tap_on(step_cmd(cmds, old, n, i).0.tap_until, n.now),
{
}

/// A plain non-interruptible `Regular` command is on exactly while its node is held.
pub proof fn law_regular_follows_the_node(cmds: Seq<CompiledCommand>, old: Seq<CmdState>, n: NodeTick, i: int)
    requires
        0 <= i < cmds.len(),
        cmds[i].activator == (Activator::Regular { interruptible: false }),
        !cmds[i].settings.toggle,
        cmds[i].settings.turbo is None,
    ensures
        step_cmd(cmds, old, n, i).1 == n.held,
{
}

/// A plain `Double` command fires only while its node is held, and on a press only when the
/// previous press began within its window.
pub proof fn law_double_needs_a_quick_second_press(
    cmds: Seq<CompiledCommand>,
    old: Seq<CmdState>,
    n: NodeTick,
    i: int,
    window_ms: u32,
)
    requires
        0 <= i < cmds.len(),
        cmds[i].activator == (Activator::Double { window_ms }),
        !cmds[i].settings.toggle,
        cmds[i].settings.turbo is None,
    ensures
        step_cmd(cmds, old, n, i).1 ==> n.held,
        step_cmd(cmds, old, n, i).1 && n.pressed ==> n.prev_press is Some && sat_sub(
            n.now,
            n.prev_press.unwrap(),
        ) <= window_ms,
{
}

} // verus!
