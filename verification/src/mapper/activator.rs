//! Activator state — the retained per-command latches and node timing the activator state
//! machine runs on.
//!
//! The table is keyed by source → winning binding: a source's activator state is reset the moment
//! its winning binding changes (a layer swap), so a long-press started under one binding cannot
//! bleed into another. Within a source, one [`SlotState`] tracks each button-like node the binding
//! exposes — the button itself, or a behavior's virtual buttons — indexed by a fixed slot order.

use vstd::prelude::*;

use crate::program::LayerId;
use crate::vocab::{InputSource, N_SOURCES};

verus! {

/// Which binding won for a source — part of the activator identity, so a change resets state.
#[derive(Debug, Clone, Copy, PartialEq, Eq, Structural)]
pub enum BindingKey {
    Base,
    Layer(LayerId),
}

/// The state of an interruptible `Regular` command that shares its node with an interrupter
/// (`Long`/`Double`).
#[derive(Debug, Clone, Copy, PartialEq, Eq, Structural)]
pub enum Deferred {
    /// No interaction in progress (or one fully resolved with nothing pending).
    Idle,
    /// Pressed, not yet resolved — could still be interrupted, or commit to a hold or a tap.
    Pending,
    /// Committed to a real press-and-hold; outputs until release.
    Holding,
    /// Resolved for this interaction — interrupted (no output) or a committed tap playing out.
    Done,
}

/// Per-command latch state carried across ticks (times in ms of the injected clock).
#[derive(Debug, Clone, Copy, PartialEq, Eq, Structural)]
pub struct CmdState {
    /// A tap-style output window, held until this stamp.
    pub tap_until: Option<u64>,
    /// When this hold-taker (`Long`/`Double`) last became active — its fire time. `None` while
    /// inactive.
    pub hold_since: Option<u64>,
    /// `Double`: the current press qualified as the second-within-window.
    pub double_active: bool,
    /// Interruptible-`Regular` deferral state, and its interaction's first-press time.
    pub deferred: Deferred,
    pub deferred_start: Option<u64>,
    /// `toggle`: the latch, and the previous raw activation (to flip on its rising edge).
    pub toggle_on: bool,
    pub raw_prev: bool,
    /// `turbo`: when the current pulse train started.
    pub turbo_start: Option<u64>,
    /// The command's previous-tick output level: its edges fire haptic pulses and its rising edge
    /// takes persistent layer/set changes.
    pub haptic_prev: bool,
}

/// A fresh command state.
pub open spec fn cmd_default() -> CmdState {
    CmdState {
        tap_until: None,
        hold_since: None,
        double_active: false,
        deferred: Deferred::Idle,
        deferred_start: None,
        toggle_on: false,
        raw_prev: false,
        turbo_start: None,
        haptic_prev: false,
    }
}

impl CmdState {
    pub fn new() -> (c: CmdState)
        ensures
            c == cmd_default(),
    {
        CmdState {
            tap_until: None,
            hold_since: None,
            double_active: false,
            deferred: Deferred::Idle,
            deferred_start: None,
            toggle_on: false,
            raw_prev: false,
            turbo_start: None,
            haptic_prev: false,
        }
    }
}

/// One button-like node's timing (shared by its commands) plus per-command latches.
#[derive(Debug, Clone)]
pub struct SlotState {
    /// The node's held-state last tick, for edge detection.
    pub prev_held: bool,
    /// When the current press began (`None` while released) — the `Long` timer base.
    pub press_start: Option<u64>,
    /// The start of the most recent press, retained across release — `Double`'s window base.
    pub last_press: Option<u64>,
    pub commands: Vec<CmdState>,
}

impl SlotState {
    pub fn new() -> (s: SlotState)
        ensures
            !s.prev_held,
            s.press_start.is_none(),
            s.last_press.is_none(),
            s.commands@.len() == 0,
    {
        SlotState { prev_held: false, press_start: None, last_press: None, commands: Vec::new() }
    }
}

impl SlotState {
    /// The latch state for command `i` on this node (grown with fresh latches up to it).
    pub fn command(&mut self, i: usize) -> (r: &mut CmdState)
        requires
            i < usize::MAX,
        ensures
            *r == (if i < old(self).commands@.len() {
                old(self).commands@[i as int]
            } else {
                cmd_default()
            }),
            final(self).prev_held == old(self).prev_held,
            final(self).press_start == old(self).press_start,
            final(self).last_press == old(self).last_press,
            final(self).commands@.len() == if i < old(self).commands@.len() {
                old(self).commands@.len() as int
            } else {
                i + 1
            },
            forall|j: int|
                0 <= j < final(self).commands@.len() && j != i ==> #[trigger] final(self).commands@[j]
                    == if j < old(self).commands@.len() {
                    old(self).commands@[j]
                } else {
                    cmd_default()
                },
            final(self).commands@[i as int] == *final(r),
    {
        while self.commands.len() <= i
            invariant
                i < usize::MAX,
                self.prev_held == old(self).prev_held,
                self.press_start == old(self).press_start,
                self.last_press == old(self).last_press,
                old(self).commands@.len() <= self.commands@.len() <= if i < old(
                    self,
                ).commands@.len() {
                    old(self).commands@.len() as int
                } else {
                    i + 1
                },
                forall|j: int|
                    0 <= j < self.commands@.len() ==> #[trigger] self.commands@[j] == if j < old(
                        self,
                    ).commands@.len() {
                        old(self).commands@[j]
                    } else {
                        cmd_default()
                    },
            decreases i + 1 - self.commands.len(),
        {
            self.commands.push(CmdState::new());
        }
        &mut self.commands[i]
    }
}

/// The abstract content of a [`SlotState`].
pub struct SlotView {
    pub prev_held: bool,
    pub press_start: Option<u64>,
    pub last_press: Option<u64>,
    pub commands: Seq<CmdState>,
}

impl SlotState {
    pub open spec fn view(self) -> SlotView {
        SlotView {
            prev_held: self.prev_held,
            press_start: self.press_start,
            last_press: self.last_press,
            commands: self.commands@,
        }
    }
}

/// A slot with no history.
pub open spec fn fresh_slot(s: SlotView) -> bool {
    &&& !s.prev_held
    &&& s.press_start.is_none()
    &&& s.last_press.is_none()
    &&& s.commands.len() == 0
}

/// A slot with no history.
pub open spec fn fresh_view() -> SlotView {
    SlotView { prev_held: false, press_start: None, last_press: None, commands: Seq::empty() }
}

/// `slots` grown with fresh slots to at least `n`.
pub open spec fn grown(slots: Seq<SlotView>, n: int) -> Seq<SlotView> {
    Seq::new(
        if slots.len() >= n {
            slots.len()
        } else {
            n as nat
        },
        |j: int|
            if j < slots.len() {
                slots[j]
            } else {
                fresh_view()
            },
    )
}

/// A source's activator state: the binding it belongs to and one [`SlotState`] per node.
#[derive(Debug, Clone)]
pub struct SourceActivators {
    pub key: BindingKey,
    pub slots: Vec<SlotState>,
}

/// The views of a table of slots.
pub open spec fn slot_views(v: Seq<SlotState>) -> Seq<SlotView> {
    v.map_values(|s: SlotState| s.view())
}

/// The abstract content of a [`SourceActivators`].
pub struct ActView {
    pub key: BindingKey,
    pub slots: Seq<SlotView>,
}

impl SourceActivators {
    pub open spec fn view(self) -> ActView {
        ActView { key: self.key, slots: slot_views(self.slots@) }
    }

    /// The state for slot `i`, growing the table with fresh slots up to it.
    pub fn slot(&mut self, i: usize) -> (r: &mut SlotState)
        requires
            i < 8,
        ensures
            r.view() == grown(old(self).view().slots, i + 1)[i as int],
            final(self).view() == (ActView {
                key: old(self).key,
                slots: grown(old(self).view().slots, i + 1).update(i as int, final(r).view()),
            }),
    {
        self.ensure(i + 1);
        let ghost g = grown(old(self).view().slots, i + 1);
        proof {
            assert forall|j: int| 0 <= j < self.slots@.len() implies #[trigger] self.slots@[j].view()
                == g[j] by {
                if j >= old(self).slots@.len() {
                    assert(self.slots@[j].view().commands =~= Seq::<CmdState>::empty());
                }
            }
            assert(self.view().slots =~= g);
            assert forall|x: SlotState| #[trigger] slot_views(self.slots@.update(i as int, x))
                =~= g.update(i as int, x.view()) by {}
        }
        &mut self.slots[i]
    }

    pub fn new() -> (a: SourceActivators)
        ensures
            a.key == BindingKey::Base,
            a.slots@.len() == 0,
    {
        SourceActivators { key: BindingKey::Base, slots: Vec::new() }
    }

    /// Switch to the winning binding `key`: a different winner starts from fresh slots.
    pub fn rebind(&mut self, key: BindingKey)
        ensures
            final(self).view() == if old(self).key == key {
                old(self).view()
            } else {
                ActView { key, slots: Seq::empty() }
            },
    {
        if self.key != key {
            self.slots.clear();
            self.key = key;
            assert(self.view().slots =~= Seq::<SlotView>::empty());
        }
    }

    /// Make sure slots `0..n` exist (new ones fresh).
    pub fn ensure(&mut self, n: usize)
        requires
            n <= 8,
        ensures
            final(self).key == old(self).key,
            final(self).slots@.len() == if old(self).slots@.len() >= n {
                old(self).slots@.len() as int
            } else {
                n as int
            },
            forall|j: int|
                0 <= j < old(self).slots@.len() ==> #[trigger] final(self).slots@[j].view() == old(
                    self,
                ).slots@[j].view(),
            forall|j: int|
                old(self).slots@.len() <= j < final(self).slots@.len() ==> fresh_slot(
                    #[trigger] final(self).slots@[j].view(),
                ),
    {
        while self.slots.len() < n
            invariant
                n <= 8,
                self.key == old(self).key,
                self.slots@.len() <= if old(self).slots@.len() >= n {
                    old(self).slots@.len() as int
                } else {
                    n as int
                },
                self.slots@.len() >= old(self).slots@.len(),
                forall|j: int|
                    0 <= j < old(self).slots@.len() ==> #[trigger] self.slots@[j].view() == old(
                        self,
                    ).slots@[j].view(),
                forall|j: int|
                    old(self).slots@.len() <= j < self.slots@.len() ==> fresh_slot(
                        #[trigger] self.slots@[j].view(),
                    ),
            decreases n - self.slots.len(),
        {
            self.slots.push(SlotState::new());
        }
    }
}

/// A source's activator state after its winner is `key`: kept if the winner is unchanged, else
/// fresh.
pub open spec fn rebound(a: ActView, key: BindingKey) -> ActView {
    if a.key == key {
        a
    } else {
        ActView { key, slots: Seq::empty() }
    }
}

/// The activator table: one [`SourceActivators`] per input source, indexed by the source's code.
#[derive(Debug, Clone)]
pub struct Activators {
    sources: Vec<SourceActivators>,
}

/// The views of a table of source states.
pub open spec fn act_views(v: Seq<SourceActivators>) -> Seq<ActView> {
    v.map_values(|a: SourceActivators| a.view())
}

/// The table of a fresh mapper: every source on its base binding with no history.
pub open spec fn fresh_table() -> Seq<ActView> {
    Seq::new(N_SOURCES as nat, |i: int| ActView { key: BindingKey::Base, slots: Seq::empty() })
}

impl Activators {
    /// Per source (by code), its state.
    pub closed spec fn table(self) -> Seq<ActView> {
        act_views(self.sources@)
    }

    pub closed spec fn wf(self) -> bool {
        self.sources@.len() == N_SOURCES
    }

    pub proof fn lemma_len(self)
        requires
            self.wf(),
        ensures
            self.table().len() == N_SOURCES,
    {
    }

    /// Every source fresh.
    pub fn new() -> (a: Activators)
        ensures
            a.wf(),
            a.table() == fresh_table(),
    {
        let mut sources: Vec<SourceActivators> = Vec::new();
        let mut i: usize = 0;
        while i < N_SOURCES
            invariant
                0 <= i <= N_SOURCES,
                sources@.len() == i,
                forall|j: int| 0 <= j < i ==> (#[trigger] sources@[j]).view() == (ActView {
                    key: BindingKey::Base,
                    slots: Seq::<SlotView>::empty(),
                }),
            decreases N_SOURCES - i,
        {
            let a = SourceActivators::new();
            assert(a.view().slots =~= Seq::<SlotView>::empty());
            sources.push(a);
            i += 1;
        }
        let a = Activators { sources };
        assert(a.table() =~= fresh_table());
        a
    }

    /// The state of `source` under its current winning binding `key` — reset to fresh if that
    /// winner differs from last tick's, so a long-press started under one binding cannot bleed
    /// into another.
    pub fn for_binding(&mut self, source: &InputSource, key: BindingKey) -> (r: &mut SourceActivators)
        requires
            old(self).wf(),
        ensures
            final(self).wf(),
            r.view() == rebound(old(self).table()[source.spec_code() as int], key),
            final(self).table() == old(self).table().update(source.spec_code() as int, final(r).view()),
    {
        let c = source.code() as usize;
        proof {
            assert forall|x: SourceActivators| #[trigger] act_views(self.sources@.update(c as int, x))
                =~= self.table().update(c as int, x.view()) by {}
        }
        let sa = &mut self.sources[c];
        sa.rebind(key);
        sa
    }
}

} // verus!
