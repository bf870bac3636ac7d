//! Output-side reconciliation.
//!
//! The mapper computes, each tick, the desired output levels — the keys and buttons that should
//! be held now ([`DesiredLevels`]). Reconciliation emits only the difference from the
//! last-applied levels ([`AppliedLevels`]): a held output stays held with zero events, a released
//! one emits exactly one release, and a layer change cannot strand a stuck output (the desired
//! set is recomputed fresh each tick).

use vstd::prelude::*;

use crate::vocab::{Coded, GamepadButton, Key, MouseButton};

verus! {

/// A digital output event: a key, mouse button or gamepad button going down (`true`) or up.
#[derive(Debug, Clone, Copy, PartialEq, Eq, Hash, Structural)]
pub enum OutputEvent {
    Key(Key, bool),
    MouseButton(MouseButton, bool),
    GamepadButton(GamepadButton, bool),
}

/// An output that is held as a level.
pub trait Level: Coded {
    spec fn spec_event(self, down: bool) -> OutputEvent;

    fn event(&self, down: bool) -> (e: OutputEvent)
        ensures
            e == self.spec_event(down),
    ;
}

impl Level for Key {
    open spec fn spec_event(self, down: bool) -> OutputEvent {
        OutputEvent::Key(self, down)
    }

    fn event(&self, down: bool) -> (e: OutputEvent) {
        OutputEvent::Key(*self, down)
    }
}

impl Level for MouseButton {
    open spec fn spec_event(self, down: bool) -> OutputEvent {
        OutputEvent::MouseButton(self, down)
    }

    fn event(&self, down: bool) -> (e: OutputEvent) {
        OutputEvent::MouseButton(*self, down)
    }
}

impl Level for GamepadButton {
    open spec fn spec_event(self, down: bool) -> OutputEvent {
        OutputEvent::GamepadButton(self, down)
    }

    fn event(&self, down: bool) -> (e: OutputEvent) {
        OutputEvent::GamepadButton(*self, down)
    }
}

/// The codes of `s` strictly increase.
pub open spec fn increasing<T: Coded>(s: Seq<T>) -> bool {
    forall|i: int, j: int| 0 <= i < j < s.len() ==> #[trigger] s[i].spec_code() < #[trigger] s[j].spec_code()
}

/// A set of outputs kept in code order.
#[derive(Debug, Clone, PartialEq, Eq)]
pub struct LevelSet<T> {
    items: Vec<T>,
}

impl<T: Level> LevelSet<T> {
    /// The members, in code order.
    pub closed spec fn members(self) -> Seq<T> {
        self.items@
    }

    pub closed spec fn wf(self) -> bool {
        increasing(self.items@)
    }

    pub fn new() -> (s: LevelSet<T>)
        ensures
            s.wf(),
            s.members() == Seq::<T>::empty(),
    {
        LevelSet { items: Vec::new() }
    }

    /// Whether `x` is a member.
    pub fn contains(&self, x: &T) -> (r: bool)
        ensures
            r == self.members().contains(*x),
    {
        let want = x.code();
        let mut i: usize = 0;
        while i < self.items.len()
            invariant
                0 <= i <= self.items@.len(),
                want == x.spec_code(),
                forall|j: int| 0 <= j < i ==> self.items@[j] != *x,
            decreases self.items.len() - i,
        {
            if self.items[i].code() == want {
                proof {
                    T::lemma_code_injective(self.items@[i as int], *x);
                }
                return true;
            }
            i += 1;
        }
        false
    }

    /// Add `x` (no effect if already a member).
    pub fn insert(&mut self, x: T)
        requires
            old(self).wf(),
        ensures
            final(self).wf(),
            forall|y: T| #[trigger] final(self).members().contains(y) == (y == x || old(
                self,
            ).members().contains(y)),
    {
        let want = x.code();
        let mut i: usize = 0;
        while i < self.items.len() && self.items[i].code() < want
            invariant
                0 <= i <= self.items@.len(),
                want == x.spec_code(),
                forall|j: int| 0 <= j < i ==> self.items@[j].spec_code() < want,
            decreases self.items.len() - i,
        {
            i += 1;
        }
        let ghost before = self.items@;
        if i < self.items.len() && self.items[i].code() == want {
            proof {
                T::lemma_code_injective(before[i as int], x);
                assert forall|y: T| #[trigger] before.contains(y) == (y == x || before.contains(y)) by {
                    if y == x {
                        assert(before[i as int] == x);
                    }
                }
            }
            return;
        }
        self.items.insert(i, x);
        proof {
            let after = self.items@;
            assert(after == before.insert(i as int, x));
            assert forall|a: int, b: int| 0 <= a < b < after.len() implies #[trigger] after[a].spec_code()
                < #[trigger] after[b].spec_code() by {
                if i < before.len() {
                    assert(before[i as int].spec_code() > want);
                }
                if a < i && b > i {
                    assert(after[b] == before[b - 1]);
                } else if a == i && b > i {
                    assert(after[b] == before[b - 1]);
                    if b - 1 > i {
                        assert(before[i as int].spec_code() < before[b - 1].spec_code());
                    }
                } else if a > i {
                    assert(after[a] == before[a - 1]);
                    assert(after[b] == before[b - 1]);
                }
            }
            assert forall|y: T| #[trigger] after.contains(y) == (y == x || before.contains(y)) by {
                if y == x {
                    assert(after[i as int] == x);
                }
                if before.contains(y) {
                    let k = choose|k: int| 0 <= k < before.len() && before[k] == y;
                    if k < i {
                        assert(after[k] == y);
                    } else {
                        assert(after[k + 1] == y);
                    }
                }
                if after.contains(y) && y != x {
                    let k = choose|k: int| 0 <= k < after.len() && after[k] == y;
                    if k < i {
                        assert(before[k] == y);
                    } else if k > i {
                        assert(before[k - 1] == y);
                    }
                }
            }
        }
    }
}

/// The members of `a` that are not in `b`, in `a`'s order.
pub open spec fn minus<T>(a: Seq<T>, b: Seq<T>) -> Seq<T> {
    a.filter(|x: T| !b.contains(x))
}

/// The events that take the applied set `applied` to the desired set `desired`: releases
/// (applied − desired) first, then presses (desired − applied), each in code order.
pub open spec fn diff_events<T: Level>(applied: Seq<T>, desired: Seq<T>) -> Seq<OutputEvent> {
    minus(applied, desired).map_values(|x: T| x.spec_event(false)) + minus(
        desired,
        applied,
    ).map_values(|x: T| x.spec_event(true))
}

proof fn lemma_minus_take<T>(a: Seq<T>, b: Seq<T>, i: int)
    requires
        0 <= i < a.len(),
    ensures
        minus(a.take(i + 1), b) == if !b.contains(a[i]) {
            minus(a.take(i), b).push(a[i])
        } else {
            minus(a.take(i), b)
        },
{
    reveal_with_fuel(Seq::filter, 1);
    assert(a.take(i + 1).drop_last() =~= a.take(i));
    assert(a.take(i + 1).last() == a[i]);
}

/// Push `(a − b)` as events with level `down`.
fn push_minus<T: Level>(a: &LevelSet<T>, b: &LevelSet<T>, down: bool, out: &mut Vec<OutputEvent>)
    ensures
        final(out)@ == old(out)@ + minus(a.members(), b.members()).map_values(
            |x: T| x.spec_event(down),
        ),
{
    let ghost start = out@;
    let mut i: usize = 0;
    while i < a.items.len()
        invariant
            0 <= i <= a.items@.len(),
            out@ == start + minus(a.items@.take(i as int), b.members()).map_values(
                |x: T| x.spec_event(down),
            ),
        decreases a.items.len() - i,
    {
        let x = a.items[i];
        let keep = !b.contains(&x);
        proof {
            lemma_minus_take(a.items@, b.members(), i as int);
        }
        if keep {
            out.push(x.event(down));
        }
        i += 1;
        proof {
            let before = minus(a.items@.take(i - 1), b.members());
            if keep {
                assert(before.push(x).map_values(|x: T| x.spec_event(down)) =~= before.map_values(
                    |x: T| x.spec_event(down),
                ).push(x.spec_event(down)));
            }
        }
    }
    assert(a.items@.take(a.items@.len() as int) == a.items@);
}

/// The desired output levels for one tick (what should be held now).
#[derive(Debug, Clone, PartialEq, Eq)]
pub struct DesiredLevels {
    pub(crate) keys: LevelSet<Key>,
    pub(crate) mouse_buttons: LevelSet<MouseButton>,
    pub(crate) pad_buttons: LevelSet<GamepadButton>,
}

/// The last-applied output levels.
#[derive(Debug, Clone, PartialEq, Eq)]
pub struct AppliedLevels {
    keys: LevelSet<Key>,
    mouse_buttons: LevelSet<MouseButton>,
    pad_buttons: LevelSet<GamepadButton>,
}

/// An abstract set of levels: the three member sequences, each in code order.
pub struct Levels {
    pub keys: Seq<Key>,
    pub mouse_buttons: Seq<MouseButton>,
    pub pad_buttons: Seq<GamepadButton>,
}

/// The events that take `applied` to `desired`: keys, then mouse buttons, then gamepad buttons.
pub open spec fn reconcile_events(applied: Levels, desired: Levels) -> Seq<OutputEvent> {
    diff_events(applied.keys, desired.keys) + diff_events(
        applied.mouse_buttons,
        desired.mouse_buttons,
    ) + diff_events(applied.pad_buttons, desired.pad_buttons)
}

impl DesiredLevels {
    pub closed spec fn levels(self) -> Levels {
        Levels {
            keys: self.keys.members(),
            mouse_buttons: self.mouse_buttons.members(),
            pad_buttons: self.pad_buttons.members(),
        }
    }

    pub closed spec fn wf(self) -> bool {
        self.keys.wf() && self.mouse_buttons.wf() && self.pad_buttons.wf()
    }

    /// Nothing held.
    pub fn new() -> (d: DesiredLevels)
        ensures
            d.wf(),
            d.levels().keys.len() == 0,
            d.levels().mouse_buttons.len() == 0,
            d.levels().pad_buttons.len() == 0,
    {
        DesiredLevels { keys: LevelSet::new(), mouse_buttons: LevelSet::new(), pad_buttons: LevelSet::new() }
    }

    pub fn press_key(&mut self, key: Key)
        requires
            old(self).wf(),
        ensures
            final(self).wf(),
            forall|k: Key| #[trigger] final(self).levels().keys.contains(k) == (k == key || old(
                self,
            ).levels().keys.contains(k)),
            final(self).levels().mouse_buttons == old(self).levels().mouse_buttons,
            final(self).levels().pad_buttons == old(self).levels().pad_buttons,
    {
        self.keys.insert(key);
    }

    /// Hold a mouse button. A scroll pseudo-button rides this level path too: its press edge is
    /// realized as one wheel notch.
    pub fn press_mouse(&mut self, button: MouseButton)
        requires
            old(self).wf(),
        ensures
            final(self).wf(),
            forall|b: MouseButton| #[trigger] final(self).levels().mouse_buttons.contains(b) == (b
                == button || old(self).levels().mouse_buttons.contains(b)),
            final(self).levels().keys == old(self).levels().keys,
            final(self).levels().pad_buttons == old(self).levels().pad_buttons,
    {
        self.mouse_buttons.insert(button);
    }

    pub fn press_pad(&mut self, button: GamepadButton)
        requires
            old(self).wf(),
        ensures
            final(self).wf(),
            forall|b: GamepadButton| #[trigger] final(self).levels().pad_buttons.contains(b) == (b
                == button || old(self).levels().pad_buttons.contains(b)),
            final(self).levels().keys == old(self).levels().keys,
            final(self).levels().mouse_buttons == old(self).levels().mouse_buttons,
    {
        self.pad_buttons.insert(button);
    }

    pub fn has_key(&self, key: &Key) -> (r: bool)
        ensures
            r == self.levels().keys.contains(*key),
    {
        self.keys.contains(key)
    }

    pub fn has_mouse(&self, button: &MouseButton) -> (r: bool)
        ensures
            r == self.levels().mouse_buttons.contains(*button),
    {
        self.mouse_buttons.contains(button)
    }

    pub fn has_pad(&self, button: &GamepadButton) -> (r: bool)
        ensures
            r == self.levels().pad_buttons.contains(*button),
    {
        self.pad_buttons.contains(button)
    }
}

impl AppliedLevels {
    pub closed spec fn levels(self) -> Levels {
        Levels {
            keys: self.keys.members(),
            mouse_buttons: self.mouse_buttons.members(),
            pad_buttons: self.pad_buttons.members(),
        }
    }

    pub closed spec fn wf(self) -> bool {
        self.keys.wf() && self.mouse_buttons.wf() && self.pad_buttons.wf()
    }

    /// Each applied level set is in code order.
    pub proof fn lemma_ordered(self)
        requires
            self.wf(),
        ensures
            increasing(self.levels().keys),
            increasing(self.levels().mouse_buttons),
            increasing(self.levels().pad_buttons),
    {
    }

    /// Nothing applied.
    pub fn new() -> (a: AppliedLevels)
        ensures
            a.wf(),
            a.levels().keys.len() == 0,
            a.levels().mouse_buttons.len() == 0,
            a.levels().pad_buttons.len() == 0,
    {
        AppliedLevels { keys: LevelSet::new(), mouse_buttons: LevelSet::new(), pad_buttons: LevelSet::new() }
    }

    /// Emit the diff to `desired` (releases before presses, in code order) and adopt it.
    pub fn reconcile(&mut self, desired: &DesiredLevels, out: &mut Vec<OutputEvent>)
        requires
            desired.wf(),
        ensures
            final(self).wf(),
            final(self).levels() == desired.levels(),
            final(out)@ == old(out)@ + reconcile_events(old(self).levels(), desired.levels()),
    {
        let ghost start = out@;
        let ghost before = self.levels();
        push_minus(&self.keys, &desired.keys, false, out);
        push_minus(&desired.keys, &self.keys, true, out);
        push_minus(&self.mouse_buttons, &desired.mouse_buttons, false, out);
        push_minus(&desired.mouse_buttons, &self.mouse_buttons, true, out);
        push_minus(&self.pad_buttons, &desired.pad_buttons, false, out);
        push_minus(&desired.pad_buttons, &self.pad_buttons, true, out);
        self.keys = desired.keys.clone_set();
        self.mouse_buttons = desired.mouse_buttons.clone_set();
        self.pad_buttons = desired.pad_buttons.clone_set();
        assert(out@ =~= start + reconcile_events(before, desired.levels()));
    }
}

impl<T: Level> LevelSet<T> {
    /// A copy of this set.
    pub fn clone_set(&self) -> (c: LevelSet<T>)
        ensures
            c.members() == self.members(),
            c.wf() == self.wf(),
    {
        let mut items: Vec<T> = Vec::new();
        let mut i: usize = 0;
        while i < self.items.len()
            invariant
                0 <= i <= self.items@.len(),
                items@ == self.items@.take(i as int),
            decreases self.items.len() - i,
        {
            items.push(self.items[i]);
            i += 1;
            assert(items@ =~= self.items@.take(i as int));
        }
        assert(self.items@.take(self.items@.len() as int) =~= self.items@);
        LevelSet { items }
    }
}

/// Reconciling is idempotent: once the applied levels equal the desired ones, reconciling the
/// same desired levels again emits nothing.
pub proof fn law_reconcile_settles(levels: Levels)
    ensures
        reconcile_events(levels, levels) == Seq::<OutputEvent>::empty(),
{
    lemma_minus_self(levels.keys);
    lemma_minus_self(levels.mouse_buttons);
    lemma_minus_self(levels.pad_buttons);
    assert(reconcile_events(levels, levels) =~= Seq::<OutputEvent>::empty());
}

proof fn lemma_minus_self<T>(s: Seq<T>)
    ensures
        minus(s, s) == Seq::<T>::empty(),
    decreases s.len(),
{
    let pred = |x: T| !s.contains(x);
    if minus(s, s).len() > 0 {
        let x = minus(s, s)[0];
        assert(s.filter(pred).contains(x));
        s.lemma_filter_contains_rev(pred, x);
    }
}

} // verus!
