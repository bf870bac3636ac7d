//! The runtime IR — a compiled, name-resolved mapping.
//!
//! [`Program`] is the mapping core's input contract: the flattened, index-based form the mapper
//! runs each tick. Layers are per-set, and a layer's index in [`CompiledSet::layers`] is its
//! declared-order precedence (higher index = higher precedence).
//!
//! The analog tuning of the stick/pad/trigger/gyro behaviors (deadzones, curves, gains) is
//! floating-point data evaluated outside this crate; a binding refers to it by an [`AnalogRef`].

use vstd::prelude::*;

use crate::vocab::{
    Activator, CommandSettings, GamepadButton, InputSource, Key, MouseButton, Pull,
};

verus! {

/// Which of the engine's two live slots a [`Program`] occupies.
#[derive(Debug, Clone, Copy, PartialEq, Eq, Hash, Structural)]
pub enum Role {
    Main,
    Fallback,
}

/// Index of an action set within a [`Program`].
#[derive(Debug, Clone, Copy, PartialEq, Eq, PartialOrd, Ord, Hash, Structural)]
pub struct SetId(pub u16);

impl SetId {
    /// The id for position `index`; the index is stored in 16 bits, so larger positions wrap.
    pub fn new(index: usize) -> (id: SetId)
        ensures
            id.0 as int == index as int % 65536,
    {
        SetId((index % 65536) as u16)
    }

    /// The position this id names.
    pub fn index(&self) -> (i: usize)
        ensures
            i == self.0,
    {
        self.0 as usize
    }
}

/// Index of a layer within its [`CompiledSet`]; the index is the layer's declared-order
/// precedence.
#[derive(Debug, Clone, Copy, PartialEq, Eq, PartialOrd, Ord, Hash, Structural)]
pub struct LayerId(pub u16);

impl LayerId {
    /// The id for position `index`; the index is stored in 16 bits, so larger positions wrap.
    pub fn new(index: usize) -> (id: LayerId)
        ensures
            id.0 as int == index as int % 65536,
    {
        LayerId((index % 65536) as u16)
    }

    /// The position this id names.
    pub fn index(&self) -> (i: usize)
        ensures
            i == self.0,
    {
        self.0 as usize
    }
}

/// A reference to floating-point tuning data (behavior settings, rumble shaping) that the
/// analog side evaluates.
#[derive(Debug, Clone, Copy, PartialEq, Eq, Hash, Structural)]
pub struct AnalogRef(pub u32);

/// Metadata carried alongside a compiled program (name for status, slot role).
#[derive(Debug, Clone, PartialEq, Eq)]
pub struct ProgramMeta {
    pub name: String,
    pub role: Role,
}

/// Runtime form of an action: output leaves unchanged, mode refs resolved to ids.
#[derive(Debug, Clone, Copy, PartialEq, Eq, Hash, Structural)]
pub enum CompiledAction {
    /// Does nothing.
    Nothing,
    Key(Key),
    MouseButton(MouseButton),
    GamepadButton(GamepadButton),
    ChangeActionSet(SetId),
    HoldLayer(LayerId),
    AddLayer(LayerId),
    RemoveLayer(LayerId),
}

/// A command with its action refs resolved.
#[derive(Debug, Clone, PartialEq, Eq)]
pub struct CompiledCommand {
    pub activator: Activator,
    pub actions: Vec<CompiledAction>,
    pub settings: CommandSettings,
}

/// Runtime form of a source binding.
#[derive(Debug, Clone, PartialEq, Eq)]
pub enum CompiledBinding {
    /// A standalone button: its commands.
    Button { commands: Vec<CompiledCommand> },
    /// A button group in button-pad mode: its four member buttons.
    ButtonPad {
        up: Vec<CompiledCommand>,
        down: Vec<CompiledCommand>,
        left: Vec<CompiledCommand>,
        right: Vec<CompiledCommand>,
    },
    /// Pad/stick → gamepad stick, plus an outer-ring virtual button.
    Joystick { settings: AnalogRef, outer_ring: Vec<CompiledCommand> },
    /// Pad/stick → four direction + outer-ring virtual buttons.
    DirectionalPad {
        settings: AnalogRef,
        up: Vec<CompiledCommand>,
        down: Vec<CompiledCommand>,
        left: Vec<CompiledCommand>,
        right: Vec<CompiledCommand>,
        outer_ring: Vec<CompiledCommand>,
    },
    /// Pad → cursor/scroll (no virtual buttons).
    AsMouse { settings: AnalogRef },
    /// Stick → cursor/scroll (no virtual buttons).
    JoystickMouse { settings: AnalogRef },
    /// Gyro → cursor/scroll (no virtual buttons).
    GyroToMouse { settings: AnalogRef },
    /// Trigger → gamepad trigger, plus a soft-pull virtual button that is held while the pull is
    /// at least `soft_pull_at`.
    Trigger { settings: AnalogRef, soft_pull_at: Pull, soft_pull: Vec<CompiledCommand> },
    /// Explicitly unbound — produces no output (overrides a base binding from a layer).
    Unbound,
}

/// A per-[`InputSource`] lookup, iterated in source order.
#[derive(Debug, PartialEq, Eq)]
pub struct SourceMap<T> {
    entries: Vec<(InputSource, T)>,
}

/// The entries of `s` are in strictly increasing source order.
pub open spec fn sorted_sources<T>(s: Seq<(InputSource, T)>) -> bool {
    forall|i: int, j: int|
        0 <= i < j < s.len() ==> #[trigger] s[i].0.spec_code() < #[trigger] s[j].0.spec_code()
}

/// `i` is the first entry of `s` keyed by `k`.
pub open spec fn first_match<T>(s: Seq<(InputSource, T)>, k: InputSource, i: int) -> bool {
    &&& 0 <= i < s.len()
    &&& s[i].0 == k
    &&& forall|j: int| 0 <= j < i ==> s[j].0 != k
}

/// The value `s` associates with `k` (its first entry keyed by `k`), if any.
pub open spec fn assoc<T>(s: Seq<(InputSource, T)>, k: InputSource) -> Option<T> {
    if exists|i: int| first_match(s, k, i) {
        Some(s[choose|i: int| first_match(s, k, i)].1)
    } else {
        None
    }
}

pub proof fn lemma_assoc_at<T>(s: Seq<(InputSource, T)>, k: InputSource, i: int)
    requires
        first_match(s, k, i),
    ensures
        assoc(s, k) == Some(s[i].1),
{
    let j = choose|j: int| first_match(s, k, j);
    assert(first_match(s, k, j));
    if j < i {
        assert(s[j].0 != k);
    } else if i < j {
        assert(s[i].0 != k);
    }
}

pub proof fn lemma_assoc_none<T>(s: Seq<(InputSource, T)>, k: InputSource)
    requires
        forall|i: int| 0 <= i < s.len() ==> s[i].0 != k,
    ensures
        assoc(s, k).is_none(),
{
}

proof fn lemma_first_exists<T>(s: Seq<(InputSource, T)>, k: InputSource, i: int)
    requires
        0 <= i < s.len(),
        s[i].0 == k,
    ensures
        exists|m: int| first_match(s, k, m),
    decreases i,
{
    if exists|j: int| 0 <= j < i && s[j].0 == k {
        let j = choose|j: int| 0 <= j < i && s[j].0 == k;
        lemma_first_exists(s, k, j);
    } else {
        assert(first_match(s, k, i));
    }
}

/// The value of the last pair of `s` keyed by `k`, if any.
pub open spec fn last_value<T>(s: Seq<(InputSource, T)>, k: InputSource) -> Option<T>
    decreases s.len(),
{
    if s.len() == 0 {
        None
    } else if s.last().0 == k {
        Some(s.last().1)
    } else {
        last_value(s.drop_last(), k)
    }
}

/// `assoc` in terms of the entries: `Some(v)` iff some entry is keyed by `k`.
pub proof fn lemma_assoc_some<T>(s: Seq<(InputSource, T)>, k: InputSource)
    ensures
        assoc(s, k).is_some() == exists|i: int| 0 <= i < s.len() && s[i].0 == k,
{
    if exists|i: int| 0 <= i < s.len() && s[i].0 == k {
        let i = choose|i: int| 0 <= i < s.len() && s[i].0 == k;
        lemma_first_exists(s, k, i);
    }
}

proof fn lemma_replace_entry<T>(
    before: Seq<(InputSource, T)>,
    after: Seq<(InputSource, T)>,
    i: int,
    source: InputSource,
    value: T,
)
    requires
        0 <= i < before.len(),
        before[i].0 == source,
        after == before.update(i, (source, value)),
        forall|j: int| 0 <= j < i ==> before[j].0 != source,
    ensures
        forall|k: InputSource| #[trigger] assoc(after, k) == if k == source {
            Some(value)
        } else {
            assoc(before, k)
        },
{
        assert forall|k: InputSource| #[trigger] assoc(after, k) == if k == source {
            Some(value)
        } else {
            assoc(before, k)
        } by {
            if k == source {
                lemma_assoc_at(after, k, i);
            } else if exists|j: int| first_match(before, k, j) {
                let j = choose|j: int| first_match(before, k, j);
                lemma_assoc_at(before, k, j);
                lemma_assoc_at(after, k, j);
            } else {
                lemma_assoc_some(before, k);
                assert forall|j: int| 0 <= j < after.len() implies after[j].0 != k by {
                    if j != i {
                        assert(after[j] == before[j]);
                    }
                }
                lemma_assoc_none(after, k);
            }
        }

}

proof fn lemma_insert_entry<T>(
    before: Seq<(InputSource, T)>,
    after: Seq<(InputSource, T)>,
    i: int,
    source: InputSource,
    value: T,
)
    requires
        0 <= i <= before.len(),
        after == before.insert(i, (source, value)),
        forall|j: int| 0 <= j < i ==> before[j].0.spec_code() < source.spec_code(),
        i < before.len() ==> before[i].0.spec_code() > source.spec_code(),
    ensures
        forall|k: InputSource| #[trigger] assoc(after, k) == if k == source {
            Some(value)
        } else {
            assoc(before, k)
        },
        sorted_sources(before) ==> sorted_sources(after),
{
    assert forall|j: int| 0 <= j < i implies before[j].0 != source by {
        assert(before[j].0.spec_code() < source.spec_code());
    }
        if sorted_sources(before) {
            assert forall|a: int, b: int| 0 <= a < b < after.len() implies #[trigger] after[a].0.spec_code()
                < #[trigger] after[b].0.spec_code() by {
                if b < i {
                } else if a < i && b == i {
                } else if a < i && b > i {
                    assert(after[b] == before[b - 1]);
                } else if a == i {
                    assert(after[b] == before[b - 1]);
                } else {
                    assert(after[a] == before[a - 1]);
                    assert(after[b] == before[b - 1]);
                }
            }
        }
        assert forall|k: InputSource| #[trigger] assoc(after, k) == if k == source {
            Some(value)
        } else {
            assoc(before, k)
        } by {
            if k == source {
                lemma_assoc_at(after, k, i);
            } else if exists|j: int| first_match(before, k, j) {
                let j = choose|j: int| first_match(before, k, j);
                lemma_assoc_at(before, k, j);
                if j < i {
                    lemma_assoc_at(after, k, j);
                } else {
                    assert(after[j + 1] == before[j]);
                    assert forall|m: int| 0 <= m < j + 1 implies after[m].0 != k by {
                        if m < i {
                            assert(after[m] == before[m]);
                        } else if m > i {
                            assert(after[m] == before[m - 1]);
                        }
                    }
                    lemma_assoc_at(after, k, j + 1);
                }
            } else {
                lemma_assoc_some(before, k);
                assert forall|j: int| 0 <= j < after.len() implies after[j].0 != k by {
                    if j < i {
                        assert(after[j] == before[j]);
                    } else if j > i {
                        assert(after[j] == before[j - 1]);
                    }
                }
                lemma_assoc_none(after, k);
            }
        }

}

impl<T> SourceMap<T> {
    /// The entries, in source order.
    pub closed spec fn pairs(self) -> Seq<(InputSource, T)> {
        self.entries@
    }

    /// Every map keeps its entries in strictly increasing source order.
    #[verifier::type_invariant]
    pub open spec fn in_source_order(self) -> bool {
        sorted_sources(self.pairs())
    }

    /// The value bound to `k`, if any.
    pub open spec fn lookup(self, k: InputSource) -> Option<T> {
        assoc(self.pairs(), k)
    }

    /// A bound value is the value of one of the entries.
    pub proof fn lemma_lookup_entry(self, k: InputSource)
        ensures
            self.lookup(k) is Some ==> exists|i: int|
                0 <= i < self.pairs().len() && self.pairs()[i].1 == self.lookup(k).unwrap(),
    {
        if self.lookup(k) is Some {
            let i = choose|i: int| first_match(self.pairs(), k, i);
            assert(self.pairs()[i].1 == self.lookup(k).unwrap());
        }
    }

    /// A map of `pairs`, inserted in order (a later pair for the same source wins).
    pub fn from_pairs(pairs: Vec<(InputSource, T)>) -> (m: SourceMap<T>)
        ensures
            sorted_sources(m.pairs()),
            forall|k: InputSource| #[trigger] m.lookup(k) == last_value(pairs@, k),
    {
        let mut m = SourceMap::new();
        let mut pairs = pairs;
        let mut rev: Vec<(InputSource, T)> = Vec::new();
        let ghost all = pairs@;
        while pairs.len() > 0
            invariant
                rev@.len() + pairs@.len() == all.len(),
                pairs@ == all.take(pairs@.len() as int),
                forall|j: int| 0 <= j < rev@.len() ==> #[trigger] rev@[j] == all[all.len() - 1 - j],
            decreases pairs.len(),
        {
            let ghost before = pairs@;
            let e = pairs.pop().unwrap();
            assert(pairs@ =~= all.take(pairs@.len() as int));
            rev.push(e);
        }
        let mut i: usize = rev.len();
        assert(all.take(0) =~= Seq::<(InputSource, T)>::empty());
        assert(rev@.len() == all.len());
        while i > 0
            invariant
                0 <= i <= all.len(),
                rev@.len() == i,
                forall|j: int| 0 <= j < rev@.len() ==> #[trigger] rev@[j] == all[all.len() - 1 - j],
                sorted_sources(m.pairs()),
                forall|k: InputSource| #[trigger] m.lookup(k) == last_value(all.take(all.len() - i), k),
            decreases i,
        {
            let ghost r0 = rev@;
            let e = rev.pop().unwrap();
            assert(e == r0[i - 1]);
            i -= 1;
            let ghost n = all.len() - i;
            assert(e == all[n - 1]);
            m.insert(e.0, e.1);
            assert(all.take(n).drop_last() =~= all.take(n - 1));
        }
        assert(all.take(all.len() as int) =~= all);
        m
    }

    /// An empty map.
    pub fn new() -> (m: SourceMap<T>)
        ensures
            m.pairs() == Seq::<(InputSource, T)>::empty(),
            sorted_sources(m.pairs()),
    {
        SourceMap { entries: Vec::new() }
    }

    /// The value bound to `source`, if any.
    pub fn get(&self, source: &InputSource) -> (r: Option<&T>)
        ensures
            r.is_some() == self.lookup(*source).is_some(),
            r.is_some() ==> *r.unwrap() == self.lookup(*source).unwrap(),
    {
        let want = source.code();
        let mut i: usize = 0;
        while i < self.entries.len()
            invariant
                0 <= i <= self.entries.len(),
                want == source.spec_code(),
                forall|j: int| 0 <= j < i ==> self.entries@[j].0 != *source,
            decreases self.entries.len() - i,
        {
            let c = self.entries[i].0.code();
            if c == want {
                proof {
                    InputSource::lemma_code_injective(self.entries@[i as int].0, *source);
                    lemma_assoc_at(self.entries@, *source, i as int);
                }
                return Some(&self.entries[i].1);
            }
            proof {
                if self.entries@[i as int].0 == *source {
                    assert(self.entries@[i as int].0.spec_code() == want);
                }
            }
            i += 1;
        }
        proof {
            lemma_assoc_none(self.entries@, *source);
        }
        None
    }

    /// Bind `source` to `value`, returning the value it replaced.
    pub fn insert(&mut self, source: InputSource, value: T) -> (old_value: Option<T>)
        ensures
            forall|k: InputSource| #[trigger] final(self).lookup(k) == if k == source {
                Some(value)
            } else {
                old(self).lookup(k)
            },
            old_value == old(self).lookup(source),
            sorted_sources(final(self).pairs()),
    {
        proof {
            use_type_invariant(&*self);
        }
        let mut entries: Vec<(InputSource, T)> = Vec::new();
        std::mem::swap(&mut entries, &mut self.entries);
        let ghost before = entries@;
        assert(before == old(self).pairs());
        let want = source.code();
        let mut i: usize = 0;
        while i < entries.len() && entries[i].0.code() < want
            invariant
                0 <= i <= entries.len(),
                entries@ == before,
                want == source.spec_code(),
                forall|j: int| 0 <= j < i ==> before[j].0.spec_code() < want,
            decreases entries.len() - i,
        {
            i += 1;
        }
        assert forall|j: int| 0 <= j < i implies before[j].0 != source by {
            assert(before[j].0.spec_code() < want);
        }
        if i < entries.len() && entries[i].0.code() == want {
            proof {
                InputSource::lemma_code_injective(before[i as int].0, source);
                lemma_assoc_at(before, source, i as int);
            }
            let old_entry = entries.remove(i);
            entries.insert(i, (source, value));
            let ghost after = entries@;
            assert(after =~= before.update(i as int, (source, value)));
            proof {
                lemma_replace_entry(before, after, i as int, source, value);
            }
            self.entries = entries;
            Some(old_entry.1)
        } else {
            proof {
                assert forall|j: int| i <= j < before.len() implies before[j].0.spec_code() > want by {
                    if j > i {
                        assert(before[i as int].0.spec_code() < before[j].0.spec_code());
                    }
                }
                lemma_assoc_none(before, source);
            }
            entries.insert(i, (source, value));
            let ghost after = entries@;
            assert(after =~= before.insert(i as int, (source, value)));
            proof {
                lemma_insert_entry(before, after, i as int, source, value);
            }
            self.entries = entries;
            None
        }
    }

    /// The entries, in source order.
    pub fn iter(&self) -> (r: &[(InputSource, T)])
        ensures
            r@ == self.pairs(),
    {
        self.entries.as_slice()
    }

    /// Whether no source is bound.
    pub fn is_empty(&self) -> (r: bool)
        ensures
            r == (self.pairs().len() == 0),
    {
        self.entries.len() == 0
    }

    /// The number of entries.
    pub fn len(&self) -> (r: usize)
        ensures
            r == self.pairs().len(),
    {
        self.entries.len()
    }
}

/// A layer: the subset of inputs it overrides (silent inputs fall through).
#[derive(Debug, Clone, PartialEq, Eq)]
pub struct CompiledLayer {
    pub name: String,
    pub bindings: SourceMap<CompiledBinding>,
}

/// One action set: base bindings plus its layers (index = declared-order precedence).
#[derive(Debug, Clone, PartialEq, Eq)]
pub struct CompiledSet {
    pub name: String,
    pub base: SourceMap<CompiledBinding>,
    pub layers: Vec<CompiledLayer>,
}

impl CompiledSet {
    /// The layer at `id`.
    pub fn layer(&self, id: &LayerId) -> (l: &CompiledLayer)
        requires
            (id.0 as int) < self.layers@.len(),
        ensures
            *l == self.layers@[id.0 as int],
    {
        &self.layers[id.index()]
    }
}

/// A compiled, name-resolved mapping.
#[derive(Debug, Clone, PartialEq, Eq)]
pub struct Program {
    pub meta: ProgramMeta,
    pub sets: Vec<CompiledSet>,
    /// The set active on load.
    pub default_set: SetId,
    /// The per-profile rumble feel (strength, response curve).
    pub rumble: AnalogRef,
}

impl Program {
    /// The action set at `id`.
    pub fn set(&self, id: &SetId) -> (s: &CompiledSet)
        requires
            (id.0 as int) < self.sets@.len(),
        ensures
            *s == self.sets@[id.0 as int],
    {
        &self.sets[id.index()]
    }
}

/// The command lists of a binding's button-like nodes, in slot order.
pub open spec fn binding_nodes(b: CompiledBinding) -> Seq<Seq<CompiledCommand>> {
    match b {
        CompiledBinding::Button { commands } => seq![commands@],
        CompiledBinding::ButtonPad { up, down, left, right } => seq![up@, down@, left@, right@],
        CompiledBinding::Joystick { outer_ring, .. } => seq![outer_ring@],
        CompiledBinding::DirectionalPad { up, down, left, right, outer_ring, .. } => seq![
            up@,
            down@,
            left@,
            right@,
            outer_ring@,
        ],
        CompiledBinding::Trigger { soft_pull, .. } => seq![soft_pull@],
        _ => Seq::empty(),
    }
}

/// An action whose ids name existing sets / layers.
pub open spec fn action_ok(a: CompiledAction, n_sets: int, n_layers: int) -> bool {
    match a {
        CompiledAction::ChangeActionSet(s) => (s.0 as int) < n_sets,
        CompiledAction::HoldLayer(l) => (l.0 as int) < n_layers,
        CompiledAction::AddLayer(l) => (l.0 as int) < n_layers,
        CompiledAction::RemoveLayer(l) => (l.0 as int) < n_layers,
        _ => true,
    }
}

pub open spec fn commands_ok(cmds: Seq<CompiledCommand>, n_sets: int, n_layers: int) -> bool {
    forall|i: int, j: int|
        0 <= i < cmds.len() && 0 <= j < cmds[i].actions@.len() ==> action_ok(
            #[trigger] cmds[i].actions@[j],
            n_sets,
            n_layers,
        )
}

pub open spec fn binding_ok(b: CompiledBinding, n_sets: int, n_layers: int) -> bool {
    forall|k: int|
        0 <= k < binding_nodes(b).len() ==> commands_ok(
            #[trigger] binding_nodes(b)[k],
            n_sets,
            n_layers,
        )
}

pub open spec fn bindings_ok(m: SourceMap<CompiledBinding>, n_sets: int, n_layers: int) -> bool {
    forall|i: int| 0 <= i < m.pairs().len() ==> binding_ok(#[trigger] m.pairs()[i].1, n_sets, n_layers)
}

impl CompiledSet {
    /// Every set/layer id this set's bindings name exists (sets in a program of `n_sets`, layers
    /// in this set).
    pub open spec fn refs_ok(self, n_sets: int) -> bool {
        &&& bindings_ok(self.base, n_sets, self.layers@.len() as int)
        &&& forall|l: int|
            0 <= l < self.layers@.len() ==> bindings_ok(
                #[trigger] self.layers@[l].bindings,
                n_sets,
                self.layers@.len() as int,
            )
    }
}

impl Program {
    /// The program's ids are consistent: the default set exists, every set/layer id an action
    /// names exists, and the set/layer counts fit their id width.
    pub open spec fn wf(self) -> bool {
        &&& (self.default_set.0 as int) < self.sets@.len()
        &&& self.sets@.len() <= 65536
        &&& forall|s: int|
            0 <= s < self.sets@.len() ==> (#[trigger] self.sets@[s]).refs_ok(
                self.sets@.len() as int,
            ) && self.sets@[s].layers@.len() <= 65536
    }
}

impl<T: Clone> Clone for SourceMap<T> {
    /// The same sources in the same order, each value cloned.
    fn clone(&self) -> (r: SourceMap<T>)
        ensures
            r.pairs().len() == self.pairs().len(),
            forall|i: int|
                0 <= i < self.pairs().len() ==> (#[trigger] r.pairs()[i]).0 == self.pairs()[i].0 && cloned(
                    self.pairs()[i].1,
                    r.pairs()[i].1,
                ),
    {
        proof {
            use_type_invariant(self);
        }
        let mut entries: Vec<(InputSource, T)> = Vec::new();
        let mut i: usize = 0;
        while i < self.entries.len()
            invariant
                0 <= i <= self.entries@.len(),
                entries@.len() == i,
                forall|j: int|
                    0 <= j < i ==> (#[trigger] entries@[j]).0 == self.entries@[j].0 && cloned(
                        self.entries@[j].1,
                        entries@[j].1,
                    ),
            decreases self.entries.len() - i,
        {
            let v = self.entries[i].1.clone();
            entries.push((self.entries[i].0, v));
            i += 1;
        }
        SourceMap { entries }
    }
}

impl<T> Default for SourceMap<T> {
    /// An empty map.
    fn default() -> (m: SourceMap<T>)
        ensures
            m.pairs() == Seq::<(InputSource, T)>::empty(),
    {
        SourceMap { entries: Vec::new() }
    }
}

/// The placeholder program used while no profile is applied: one action set that binds nothing.
pub fn empty_program() -> (p: Program)
    ensures
        p.meta.name@ == "EMPTY_PROFILE"@,
        p.meta.role == Role::Main,
        p.sets@.len() == 1,
        p.sets@[0].base.pairs().len() == 0,
        p.sets@[0].layers@.len() == 0,
        p.default_set == SetId(0),
        p.wf(),
{
    let set = CompiledSet { name: String::from_str("Default"), base: SourceMap::new(), layers: Vec::new() };
    let mut sets: Vec<CompiledSet> = Vec::new();
    sets.push(set);
    Program {
        meta: ProgramMeta { name: String::from_str("EMPTY_PROFILE"), role: Role::Main },
        sets,
        default_set: SetId(0),
        rumble: AnalogRef(0),
    }
}

} // verus!
