//! Global chords — the above-profile switch layer.
//!
//! Global chords are evaluated before any profile binding and consume their buttons (masked out of
//! the frame the mapper sees), so a desktop escape hatch works even with the UI down. A
//! `SwitchProfile` chord flips the engine between its Main and Fallback programs — `HoldFallback`
//! while the chord is held, `Toggle` latched on each engage, `SetMain`/`SetFallback` latching a
//! specific role. A `CommandExecute` chord asks for a headless external program on its engage edge
//! (buttons still consumed); [`Chords::eval`] never spawns anything itself.

use vstd::prelude::*;

use crate::logical::LogicalFrame;
use crate::program::Role;
use crate::vocab::Button;

verus! {

/// How a `SwitchProfile` chord picks the program role.
#[derive(Debug, Clone, Copy, PartialEq, Eq, Structural)]
pub enum SwitchMode {
    /// Fallback while the chord is held.
    HoldFallback,
    /// Flip the persistent role on each engage.
    Toggle,
    /// Latch Main on engage.
    SetMain,
    /// Latch Fallback on engage.
    SetFallback,
}

/// What a global chord does.
#[derive(Debug, Clone, PartialEq, Eq)]
pub enum GlobalAction {
    SwitchProfile { mode: SwitchMode },
    /// Run `command` with `args` (headless) on the engage edge.
    CommandExecute { command: String, args: Vec<String> },
}

/// A global chord: all of `buttons` held together trigger `action`.
#[derive(Debug, Clone, PartialEq, Eq)]
pub struct GlobalChord {
    pub buttons: Vec<Button>,
    pub action: GlobalAction,
}

/// Retained per-chord runtime state: whether it was active last frame (for the engage edge).
#[derive(Debug, Clone, Copy, PartialEq, Eq, Structural)]
pub struct ChordState {
    pub prev_active: bool,
}

/// Retained chord runtime state: the persistent Fallback latch and each chord's engage edge.
#[derive(Debug, Clone)]
pub struct Chords {
    /// The persistent base "fallback engaged?" state, flipped or latched by the switch chords.
    persistent_fallback: bool,
    states: Vec<ChordState>,
}

/// A `CommandExecute` chord that engaged this frame — the runtime spawns the program.
#[derive(Debug, Clone, PartialEq, Eq)]
pub struct ExecReq {
    pub command: String,
    pub args: Vec<String>,
}

/// The outcome of evaluating the chords for one frame.
#[derive(Debug, Clone, PartialEq, Eq)]
pub struct ChordOutcome {
    /// Buttons an active chord consumed — masked out before the mapper.
    pub consumed: Vec<Button>,
    /// Which program role drives this frame.
    pub role: Role,
    /// `CommandExecute` chords that engaged this frame.
    pub execute: Vec<ExecReq>,
}

/// A chord is active when it names at least one button and all of them are held.
pub open spec fn chord_active(buttons: Seq<Button>, frame: LogicalFrame) -> bool {
    buttons.len() > 0 && forall|i: int| 0 <= i < buttons.len() ==> frame.held(#[trigger] buttons[i])
}

/// What evaluating chords `0..k` produced.
pub struct EvalAcc {
    pub base: bool,
    pub hold: bool,
    pub consumed: Seq<Button>,
    /// The indices of the `CommandExecute` chords that engaged, in order.
    pub execute: Seq<int>,
}

/// Evaluating chords `0..k` against `frame`, chord `i` having been active last frame iff `prev[i]`.
pub open spec fn eval_upto(
    chords: Seq<GlobalChord>,
    prev: Seq<bool>,
    base0: bool,
    frame: LogicalFrame,
    k: int,
) -> EvalAcc
    decreases k,
{
    if k <= 0 {
        EvalAcc { base: base0, hold: false, consumed: Seq::empty(), execute: Seq::empty() }
    } else {
        let p = eval_upto(chords, prev, base0, frame, k - 1);
        let c = chords[k - 1];
        let active = chord_active(c.buttons@, frame);
        let rising = active && !prev[k - 1];
        let consumed = if active {
            p.consumed + c.buttons@
        } else {
            p.consumed
        };
        match c.action {
            GlobalAction::SwitchProfile { mode } => EvalAcc {
                base: match mode {
                    SwitchMode::HoldFallback => p.base,
                    SwitchMode::Toggle => if rising {
                        !p.base
                    } else {
                        p.base
                    },
                    SwitchMode::SetMain => if rising {
                        false
                    } else {
                        p.base
                    },
                    SwitchMode::SetFallback => if rising {
                        true
                    } else {
                        p.base
                    },
                },
                hold: p.hold || (mode == SwitchMode::HoldFallback && active),
                consumed,
                execute: p.execute,
            },
            GlobalAction::CommandExecute { .. } => EvalAcc {
                consumed,
                execute: if rising {
                    p.execute.push(k - 1)
                } else {
                    p.execute
                },
                ..p
            },
        }
    }
}

/// The engage edges the retained states give for `n` chords (a table of another size is reset).
pub open spec fn prev_of(states: Seq<ChordState>, n: int) -> Seq<bool> {
    Seq::new(
        n as nat,
        |i: int|
            if states.len() == n {
                states[i].prev_active
            } else {
                false
            },
    )
}

/// `req` carries the command and arguments of `chord`'s `CommandExecute`.
pub open spec fn exec_of(req: ExecReq, chord: GlobalChord) -> bool {
    match chord.action {
        GlobalAction::CommandExecute { command, args } => {
            &&& req.command@ == command@
            &&& req.args@.len() == args@.len()
            &&& forall|j: int| 0 <= j < args@.len() ==> (#[trigger] req.args@[j])@ == args@[j]@
        },
        _ => false,
    }
}

fn copy_strings(v: &Vec<String>) -> (r: Vec<String>)
    ensures
        r@.len() == v@.len(),
        forall|j: int| 0 <= j < v@.len() ==> (#[trigger] r@[j])@ == v@[j]@,
{
    let mut r: Vec<String> = Vec::new();
    let mut i: usize = 0;
    while i < v.len()
        invariant
            0 <= i <= v@.len(),
            r@.len() == i,
            forall|j: int| 0 <= j < i ==> (#[trigger] r@[j])@ == v@[j]@,
        decreases v.len() - i,
    {
        r.push(v[i].clone());
        i += 1;
    }
    r
}

/// Whether every button of `buttons` is held (and there is at least one).
fn all_held(buttons: &Vec<Button>, frame: &LogicalFrame) -> (r: bool)
    ensures
        r == chord_active(buttons@, *frame),
{
    if buttons.len() == 0 {
        return false;
    }
    let mut i: usize = 0;
    while i < buttons.len()
        invariant
            0 <= i <= buttons@.len(),
            forall|j: int| 0 <= j < i ==> frame.held(#[trigger] buttons@[j]),
        decreases buttons.len() - i,
    {
        if !frame.button_held(&buttons[i]) {
            return false;
        }
        i += 1;
    }
    true
}

impl Chords {
    pub closed spec fn spec_fallback_base(self) -> bool {
        self.persistent_fallback
    }

    pub closed spec fn spec_states(self) -> Seq<ChordState> {
        self.states@
    }

    /// A fresh runtime for `chords`, starting in Fallback if `start_fallback` (the engine boots
    /// into Main; a hot-swap of the globals passes the current [`Self::fallback_base`]).
    pub fn new(chords: &Vec<GlobalChord>, start_fallback: bool) -> (c: Chords)
        ensures
            c.spec_fallback_base() == start_fallback,
            c.spec_states().len() == chords@.len(),
            forall|i: int| 0 <= i < chords@.len() ==> !(#[trigger] c.spec_states()[i]).prev_active,
    {
        Chords { persistent_fallback: start_fallback, states: fresh_states(chords.len()) }
    }

    /// The current persistent base role (`true` = Fallback).
    pub fn fallback_base(&self) -> (b: bool)
        ensures
            b == self.spec_fallback_base(),
    {
        self.persistent_fallback
    }

    /// Evaluate every chord against `frame`: an all-buttons-held chord is active and consumes its
    /// buttons; a `Toggle` flips the persistent base on its engage edge, `SetMain`/`SetFallback`
    /// latch it, a `HoldFallback` forces Fallback while held, and a `CommandExecute` asks for its
    /// program on its engage edge. Role = base or any hold.
    pub fn eval(&mut self, chords: &Vec<GlobalChord>, frame: &LogicalFrame) -> (r: ChordOutcome)
        ensures
            ({
                let acc = eval_upto(
                    chords@,
                    prev_of(old(self).spec_states(), chords@.len() as int),
                    old(self).spec_fallback_base(),
                    *frame,
                    chords@.len() as int,
                );
                &&& final(self).spec_fallback_base() == acc.base
                &&& r.role == if acc.base || acc.hold {
                    Role::Fallback
                } else {
                    Role::Main
                }
                &&& r.consumed@ == acc.consumed
                &&& r.execute@.len() == acc.execute.len()
                &&& forall|j: int|
                    0 <= j < acc.execute.len() ==> exec_of(#[trigger] r.execute@[j], chords@[acc.execute[j]])
            }),
            final(self).spec_states().len() == chords@.len(),
            forall|i: int|
                0 <= i < chords@.len() ==> (#[trigger] final(self).spec_states()[i]).prev_active
                    == chord_active(chords@[i].buttons@, *frame),
    {
        let n = chords.len();
        let ghost prev = prev_of(self.states@, n as int);
        if self.states.len() != n {
            self.states = fresh_states(n);
        }
        assert forall|i: int| 0 <= i < n implies (#[trigger] self.states@[i]).prev_active == prev[i] by {}
        let mut consumed: Vec<Button> = Vec::new();
        let mut hold_fallback = false;
        let mut base = self.persistent_fallback;
        let ghost base0 = base;
        let mut execute: Vec<ExecReq> = Vec::new();
        let mut i: usize = 0;
        while i < n
            invariant
                0 <= i <= n,
                n == chords@.len(),
                prev.len() == n,
                self.states@.len() == n,
                forall|j: int| i <= j < n ==> (#[trigger] self.states@[j]).prev_active == prev[j],
                forall|j: int|
                    0 <= j < i ==> (#[trigger] self.states@[j]).prev_active == chord_active(
                        chords@[j].buttons@,
                        *frame,
                    ),
                base == eval_upto(chords@, prev, base0, *frame, i as int).base,
                hold_fallback == eval_upto(chords@, prev, base0, *frame, i as int).hold,
                consumed@ == eval_upto(chords@, prev, base0, *frame, i as int).consumed,
                execute@.len() == eval_upto(chords@, prev, base0, *frame, i as int).execute.len(),
                forall|j: int|
                    0 <= j < execute@.len() ==> 0 <= #[trigger] eval_upto(
                        chords@,
                        prev,
                        base0,
                        *frame,
                        i as int,
                    ).execute[j] < i,
                forall|j: int|
                    0 <= j < execute@.len() ==> exec_of(
                        #[trigger] execute@[j],
                        chords@[eval_upto(chords@, prev, base0, *frame, i as int).execute[j]],
                    ),
            decreases n - i,
        {
            let chord = &chords[i];
            let active = all_held(&chord.buttons, frame);
            let rising = active && !self.states[i].prev_active;
            let ghost c0 = consumed@;
            if active {
                let mut k: usize = 0;
                while k < chord.buttons.len()
                    invariant
                        0 <= k <= chord.buttons@.len(),
                        consumed@ == c0 + chord.buttons@.take(k as int),
                    decreases chord.buttons.len() - k,
                {
                    consumed.push(chord.buttons[k]);
                    k += 1;
                    assert(consumed@ =~= c0 + chord.buttons@.take(k as int));
                }
                assert(chord.buttons@.take(chord.buttons@.len() as int) =~= chord.buttons@);
            }
            let ghost e0 = execute@;
            match &chord.action {
                GlobalAction::SwitchProfile { mode } => match mode {
                    SwitchMode::HoldFallback => {
                        hold_fallback = hold_fallback || active;
                    },
                    SwitchMode::Toggle => {
                        if rising {
                            base = !base;
                        }
                    },
                    SwitchMode::SetMain => {
                        if rising {
                            base = false;
                        }
                    },
                    SwitchMode::SetFallback => {
                        if rising {
                            base = true;
                        }
                    },
                },
                GlobalAction::CommandExecute { command, args } => {
                    if rising {
                        execute.push(ExecReq { command: command.clone(), args: copy_strings(args) });
                    }
                },
            }
            self.states.set(i, ChordState { prev_active: active });
            proof {
                let acc = eval_upto(chords@, prev, base0, *frame, i + 1);
                let pa = eval_upto(chords@, prev, base0, *frame, i as int);
                assert forall|j: int| 0 <= j < execute@.len() implies exec_of(
                    #[trigger] execute@[j],
                    chords@[acc.execute[j]],
                ) && 0 <= acc.execute[j] < i + 1 by {
                    if j < e0.len() {
                        assert(execute@[j] == e0[j]);
                        assert(acc.execute[j] == pa.execute[j]);
                    }
                }
            }
            i += 1;
        }
        self.persistent_fallback = base;
        let role = if base || hold_fallback {
            Role::Fallback
        } else {
            Role::Main
        };
        ChordOutcome { consumed, role, execute }
    }
}

/// `n` chord states, none active.
fn fresh_states(n: usize) -> (v: Vec<ChordState>)
    ensures
        v@.len() == n,
        forall|i: int| 0 <= i < n ==> !(#[trigger] v@[i]).prev_active,
{
    let mut v: Vec<ChordState> = Vec::new();
    let mut i: usize = 0;
    while i < n
        invariant
            0 <= i <= n,
            v@.len() == i,
            forall|j: int| 0 <= j < i ==> !(#[trigger] v@[j]).prev_active,
        decreases n - i,
    {
        v.push(ChordState { prev_active: false });
        i += 1;
    }
    v
}

/// With no chords the role is the persistent base, which stays as it was.
pub proof fn law_no_chords_keep_base(prev: Seq<bool>, base: bool, frame: LogicalFrame)
    ensures
        eval_upto(Seq::<GlobalChord>::empty(), prev, base, frame, 0).base == base,
        !eval_upto(Seq::<GlobalChord>::empty(), prev, base, frame, 0).hold,
        eval_upto(Seq::<GlobalChord>::empty(), prev, base, frame, 0).consumed.len() == 0,
{
}

/// A chord that is not active consumes nothing, changes no role and asks for nothing: the outcome
/// of chords `0..k+1` equals that of `0..k` when chord `k` is inactive and not a held switch.
pub proof fn law_inactive_chord_is_inert(
    chords: Seq<GlobalChord>,
    prev: Seq<bool>,
    base: bool,
    frame: LogicalFrame,
    k: int,
)
    requires
        0 <= k < chords.len(),
        !chord_active(chords[k].buttons@, frame),
    ensures
        eval_upto(chords, prev, base, frame, k + 1) == eval_upto(chords, prev, base, frame, k),
{
}

/// Engaging a `Toggle` chord flips the persistent base; engaging it again flips it back.
pub proof fn law_toggle_flips(
    chords: Seq<GlobalChord>,
    prev: Seq<bool>,
    base: bool,
    frame: LogicalFrame,
    k: int,
)
    requires
        0 <= k < chords.len(),
        chords[k].action == (GlobalAction::SwitchProfile { mode: SwitchMode::Toggle }),
        chord_active(chords[k].buttons@, frame),
        !prev[k],
    ensures
        eval_upto(chords, prev, base, frame, k + 1).base == !eval_upto(chords, prev, base, frame, k).base,
{
}

/// What a switch chord does to the persistent base on the frame it engages (active now, not
/// active last frame): `SetMain` latches Main and `SetFallback` latches Fallback whatever the base
/// was, `Toggle` flips it, `HoldFallback` leaves it; on any other frame a chord leaves the base as
/// it was, and a `CommandExecute` chord never touches it.
pub proof fn law_switch_chords_set_the_base(
    chords: Seq<GlobalChord>,
    prev: Seq<bool>,
    base0: bool,
    frame: LogicalFrame,
    k: int,
)
    requires
        0 <= k < chords.len(),
    ensures
        ({
            let before = eval_upto(chords, prev, base0, frame, k).base;
            let after = eval_upto(chords, prev, base0, frame, k + 1).base;
            let engaged = chord_active(chords[k].buttons@, frame) && !prev[k];
            &&& chords[k].action == (GlobalAction::SwitchProfile { mode: SwitchMode::SetMain }) && engaged
                ==> after == false
            &&& chords[k].action == (GlobalAction::SwitchProfile { mode: SwitchMode::SetFallback }) && engaged
                ==> after == true
            &&& chords[k].action == (GlobalAction::SwitchProfile { mode: SwitchMode::Toggle }) && engaged
                ==> after == !before
            &&& chords[k].action == (GlobalAction::SwitchProfile { mode: SwitchMode::HoldFallback }) ==> after
                == before
            &&& chords[k].action is CommandExecute ==> after == before
            &&& !engaged ==> after == before
        }),
{
}

} // verus!
