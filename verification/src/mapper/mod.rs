//! The pure mapping core.
//!
//! [`Mapper`] holds the live runtime state and runs one acyclic pass per tick. It takes an input
//! frame plus an injected [`Tick`] clock and produces output events and haptic requests, touching
//! no hardware and no wall clock — so recorded `(frame, Tick)` traces replay identically.

pub mod activator;
pub mod behavior;
pub mod command;
pub mod layers;
pub mod reconcile;

use vstd::prelude::*;

use crate::idmap::IdMap;
use crate::logical::LogicalFrame;
use crate::mapper::activator::{rebound, ActView, Activators, BindingKey, fresh_table};
use crate::mapper::behavior::{binding_step, eval_binding, VirtualButtons};
use crate::mapper::command::{levels_add, TAP_MS};
use crate::mapper::layers::{
    apply_adds, apply_removes, arm_nodes, fires, keep_held, layers_in, layers_of, next_armed,
    next_held, next_persistent, next_set, requesting_nodes, set_change_fires, still_held, LayerOps,
    NodeHeld, OpsView,
};
use crate::mapper::reconcile::{reconcile_events, AppliedLevels, DesiredLevels, Levels, OutputEvent};
use crate::program::{CompiledBinding, CompiledSet, LayerId, Program, SetId, SourceMap};
use crate::vocab::{Coded, GamepadButton, HapticStrength, InputSource, Key, MouseButton, Side, N_SOURCES};

verus! {

/// A monotonic logical clock stamp (milliseconds since the loop started), injected each tick.
/// The mapper reads time only from it, so activator timers are deterministic.
#[derive(Debug, Clone, Copy, PartialEq, Eq, PartialOrd, Ord, Hash, Structural)]
pub struct Tick(pub u64);

/// A request for one haptic pulse on the actuator of the triggering input's side.
#[derive(Debug, Clone, Copy, PartialEq, Eq, Structural)]
pub struct HapticReq {
    pub side: Side,
    pub strength: HapticStrength,
}

/// No output held.
pub open spec fn no_levels() -> Levels {
    Levels { keys: Seq::empty(), mouse_buttons: Seq::empty(), pad_buttons: Seq::empty() }
}

/// No layer/set change requested.
pub open spec fn no_ops() -> OpsView {
    OpsView { set_change: None, adds: Seq::empty(), removes: Seq::empty(), holds: Map::empty() }
}

/// The winning binding for `source` given the active `layers` (in declared order) and its
/// identity: the highest-precedence active layer that binds it, else the base binding, else none.
pub open spec fn resolve_in(set: CompiledSet, layers: Seq<LayerId>, source: InputSource) -> Option<
    (CompiledBinding, BindingKey),
>
    decreases layers.len(),
{
    if layers.len() == 0 {
        match set.base.lookup(source) {
            Some(b) => Some((b, BindingKey::Base)),
            None => None,
        }
    } else {
        let l = layers.last();
        match set.layers@[l.0 as int].bindings.lookup(source) {
            Some(b) => Some((b, BindingKey::Layer(l))),
            None => resolve_in(set, layers.drop_last(), source),
        }
    }
}

/// The analog side's virtual-button levels for `source` (all released when it gave none).
pub open spec fn virtual_at(virt: SourceMap<VirtualButtons>, source: InputSource) -> VirtualButtons {
    match virt.lookup(source) {
        Some(v) => v,
        None => VirtualButtons { up: false, down: false, left: false, right: false, ring: false },
    }
}

/// What evaluating the first `c` sources (in declaration order) did: the activator table, the
/// actions fired, the layer ops, and the haptic pulses.
pub struct TickAcc {
    pub acts: Seq<ActView>,
    pub fired: Seq<crate::program::CompiledAction>,
    pub ops: OpsView,
    pub haptics: Seq<HapticReq>,
}

/// One tick's evaluation of sources `0..c`: each source that resolves to a binding runs it on its
/// activator state (reset if its winner changed).
pub open spec fn tick_upto(
    set: CompiledSet,
    layers: Seq<LayerId>,
    acts0: Seq<ActView>,
    frame: LogicalFrame,
    virt: SourceMap<VirtualButtons>,
    now: u64,
    c: int,
) -> TickAcc
    decreases c,
{
    if c <= 0 {
        TickAcc { acts: acts0, fired: Seq::empty(), ops: no_ops(), haptics: Seq::empty() }
    } else {
        let p = tick_upto(set, layers, acts0, frame, virt, now, c - 1);
        let s = InputSource::spec_from_code((c - 1) as u8);
        match resolve_in(set, layers, s) {
            None => p,
            Some((b, key)) => {
                let a = rebound(p.acts[c - 1], key);
                let st = binding_step(b, s, frame, virtual_at(virt, s), a.slots, now, p.ops);
                TickAcc {
                    acts: p.acts.update(c - 1, ActView { key, slots: st.slots }),
                    fired: p.fired + st.fired,
                    ops: st.ops,
                    haptics: p.haptics + st.haptics,
                }
            },
        }
    }
}

/// Every id the ops name exists (sets among `ns`, layers among `nl`).
pub open spec fn ops_ok(ops: OpsView, ns: int, nl: int) -> bool {
    &&& (ops.set_change matches Some(sc) ==> (sc.0.0 as int) < ns)
    &&& forall|i: int| 0 <= i < ops.adds.len() ==> (#[trigger] ops.adds[i]).0.0 < nl
    &&& forall|i: int| 0 <= i < ops.removes.len() ==> (#[trigger] ops.removes[i]).0.0 < nl
    &&& forall|k: u32| ops.holds.contains_key(k) ==> k < nl
}

/// Every action of `acts` names existing ids.
pub open spec fn acts_ok(acts: Seq<crate::program::CompiledAction>, ns: int, nl: int) -> bool {
    forall|i: int| 0 <= i < acts.len() ==> crate::program::action_ok(#[trigger] acts[i], ns, nl)
}

proof fn lemma_apply_ops_ok(
    ops: OpsView,
    acts: Seq<crate::program::CompiledAction>,
    node: NodeHeld,
    rising: bool,
    ns: int,
    nl: int,
)
    requires
        ops_ok(ops, ns, nl),
        acts_ok(acts, ns, nl),
    ensures
        ops_ok(crate::mapper::layers::apply_ops(ops, acts, node, rising), ns, nl),
    decreases acts.len(),
{
    if acts.len() > 0 {
        let init = acts.drop_last();
        assert(acts_ok(init, ns, nl)) by {
            assert forall|i: int| 0 <= i < init.len() implies crate::program::action_ok(#[trigger] init[i], ns, nl) by {
                assert(init[i] == acts[i]);
            }
        }
        lemma_apply_ops_ok(ops, init, node, rising, ns, nl);
        assert(crate::program::action_ok(acts[acts.len() - 1], ns, nl));
    }
}

proof fn lemma_ops_upto_ok(
    cmds: Seq<crate::program::CompiledCommand>,
    olds: Seq<crate::mapper::activator::CmdState>,
    n: crate::mapper::command::NodeTick,
    node: NodeHeld,
    ops: OpsView,
    k: int,
    ns: int,
    nl: int,
)
    requires
        crate::program::commands_ok(cmds, ns, nl),
        ops_ok(ops, ns, nl),
        k <= cmds.len(),
    ensures
        ops_ok(crate::mapper::command::ops_upto(cmds, olds, n, node, ops, k), ns, nl),
    decreases k,
{
    if k > 0 {
        lemma_ops_upto_ok(cmds, olds, n, node, ops, k - 1, ns, nl);
        let acts = cmds[k - 1].actions@;
        assert(acts_ok(acts, ns, nl)) by {
            assert forall|j: int| 0 <= j < acts.len() implies crate::program::action_ok(#[trigger] acts[j], ns, nl) by {
                assert(crate::program::action_ok(cmds[k - 1].actions@[j], ns, nl));
            }
        }
        lemma_apply_ops_ok(
            crate::mapper::command::ops_upto(cmds, olds, n, node, ops, k - 1),
            acts,
            node,
            !crate::mapper::command::cs_at(olds, k - 1).haptic_prev,
            ns,
            nl,
        );
    }
}

proof fn lemma_nodes_ok(
    nodes: Seq<crate::mapper::behavior::NodeIn>,
    slots: Seq<crate::mapper::activator::SlotView>,
    side: Side,
    now: u64,
    ops: OpsView,
    k: int,
    ns: int,
    nl: int,
)
    requires
        ops_ok(ops, ns, nl),
        k <= nodes.len(),
        k <= slots.len(),
        forall|j: int| 0 <= j < nodes.len() ==> crate::program::commands_ok(#[trigger] nodes[j].commands, ns, nl),
    ensures
        ops_ok(crate::mapper::behavior::nodes_step(nodes, slots, side, now, ops, k).ops, ns, nl),
    decreases k,
{
    if k > 0 {
        lemma_nodes_ok(nodes, slots, side, now, ops, k - 1, ns, nl);
        let p = crate::mapper::behavior::nodes_step(nodes, slots, side, now, ops, k - 1);
        let nd = nodes[k - 1];
        crate::mapper::behavior::lemma_nodes_step_len(nodes, slots, side, now, ops, k - 1);
        let slot = p.slots[k - 1];
        let nt = crate::mapper::command::node_tick(slot, nd.held, now);
        lemma_ops_upto_ok(nd.commands, slot.commands, nt, nd.node, p.ops, nd.commands.len() as int, ns, nl);
    }
}

proof fn lemma_binding_step_ok(
    b: CompiledBinding,
    source: InputSource,
    frame: LogicalFrame,
    v: VirtualButtons,
    slots: Seq<crate::mapper::activator::SlotView>,
    now: u64,
    ops: OpsView,
    ns: int,
    nl: int,
)
    requires
        ops_ok(ops, ns, nl),
        crate::program::binding_ok(b, ns, nl),
    ensures
        ops_ok(binding_step(b, source, frame, v, slots, now, ops).ops, ns, nl),
{
    let nodes = crate::mapper::behavior::binding_inputs(b, source, frame, v);
    assert(nodes.len() == crate::program::binding_nodes(b).len());
    assert forall|j: int| 0 <= j < nodes.len() implies crate::program::commands_ok(#[trigger] nodes[j].commands, ns, nl) by {
        assert(nodes[j].commands == crate::program::binding_nodes(b)[j]);
    }
    lemma_nodes_ok(
        nodes,
        crate::mapper::activator::grown(slots, nodes.len() as int),
        source.spec_side(),
        now,
        ops,
        nodes.len() as int,
        ns,
        nl,
    );
}

proof fn lemma_resolve_ok(set: CompiledSet, layers: Seq<LayerId>, source: InputSource, ns: int)
    requires
        set.refs_ok(ns),
        forall|i: int| 0 <= i < layers.len() ==> (#[trigger] layers[i].0 as int) < set.layers@.len(),
    ensures
        resolve_in(set, layers, source) matches Some((b, _)) ==> crate::program::binding_ok(
            b,
            ns,
            set.layers@.len() as int,
        ),
    decreases layers.len(),
{
    if layers.len() == 0 {
        set.base.lemma_lookup_entry(source);
    } else {
        let l = layers.last();
        assert((l.0 as int) < set.layers@.len());
        set.layers@[l.0 as int].bindings.lemma_lookup_entry(source);
        lemma_resolve_ok(set, layers.drop_last(), source, ns);
    }
}

proof fn lemma_tick_acts_len(
    set: CompiledSet,
    layers: Seq<LayerId>,
    acts0: Seq<ActView>,
    frame: LogicalFrame,
    virt: SourceMap<VirtualButtons>,
    now: u64,
    c: int,
)
    requires
        c <= acts0.len(),
    ensures
        tick_upto(set, layers, acts0, frame, virt, now, c).acts.len() == acts0.len(),
    decreases c,
{
    if c > 0 {
        lemma_tick_acts_len(set, layers, acts0, frame, virt, now, c - 1);
    }
}

/// The keys of `m` as layer ids, in order (every key below 65536).
fn ids_of<V: Copy>(m: &IdMap<V>) -> (r: Vec<LayerId>)
    requires
        m.wf(),
        forall|k: u32| m.view_map().contains_key(k) ==> k < 65536,
    ensures
        forall|i: int, j: int| 0 <= i < j < r@.len() ==> #[trigger] r@[i].0 < #[trigger] r@[j].0,
        forall|l: LayerId| #[trigger] r@.contains(l) == m.view_map().contains_key(l.0 as u32),
{
    proof {
        m.lemma_wf();
    }
    let mut r: Vec<LayerId> = Vec::new();
    let mut i: usize = 0;
    while i < m.len()
        invariant
            0 <= i <= m.entries().len(),
            m.wf(),
            crate::idmap::increasing_keys(m.entries()),
            forall|k: u32| #[trigger] m.view_map().contains_key(k) == exists|j: int|
                0 <= j < m.entries().len() && m.entries()[j].0 == k,
            forall|k: u32| m.view_map().contains_key(k) ==> k < 65536,
            r@.len() == i,
            forall|j: int| 0 <= j < i ==> (#[trigger] r@[j]).0 as u32 == m.entries()[j].0,
        decreases m.entries().len() - i,
    {
        let (k, _) = m.at(i);
        proof {
            assert(m.view_map().contains_key(m.entries()[i as int].0));
        }
        r.push(LayerId(k as u16));
        i += 1;
    }
    proof {
        let e = m.entries();
        assert forall|a: int, b: int| 0 <= a < b < r@.len() implies #[trigger] r@[a].0 < #[trigger] r@[b].0 by {
            assert(e[a].0 < e[b].0);
        }
        assert forall|l: LayerId| #[trigger] r@.contains(l) == m.view_map().contains_key(l.0 as u32) by {
            if r@.contains(l) {
                let j = choose|j: int| 0 <= j < r@.len() && r@[j] == l;
                assert(m.view_map().contains_key(e[j].0));
            }
            if m.view_map().contains_key(l.0 as u32) {
                let j = choose|j: int| 0 <= j < e.len() && e[j].0 == l.0 as u32;
                assert(r@[j].0 as u32 == l.0 as u32);
                assert(r@[j] == l);
            }
        }
    }
    r
}

/// The live mapping state — everything retained across ticks.
pub struct Mapper {
    /// The action set currently active.
    active_set: SetId,
    /// The layers active this tick, frozen at tick start, in declared order (persistent adds plus
    /// held hold-layers).
    active_layers: Vec<LayerId>,
    /// Last-applied output levels, reconciled against each tick's desired set.
    applied: AppliedLevels,
    /// Per-source activator state, reset when a source's winning binding changes.
    activators: Activators,
    /// Persistent layers from `AddLayer`/`RemoveLayer` (until removed or a set change).
    persistent_layers: IdMap<()>,
    /// Active `HoldLayer`s and the node each is latched to.
    held_layers: IdMap<NodeHeld>,
    /// Nodes that already fired their persistent op this press, by node key.
    armed_nodes: IdMap<NodeHeld>,
}

impl Mapper {
    pub closed spec fn spec_active_set(self) -> SetId {
        self.active_set
    }

    pub closed spec fn spec_active_layers(self) -> Seq<LayerId> {
        self.active_layers@
    }

    pub closed spec fn applied_levels(self) -> Levels {
        self.applied.levels()
    }

    pub closed spec fn act_table(self) -> Seq<ActView> {
        self.activators.table()
    }

    pub closed spec fn persistent(self) -> Set<u32> {
        self.persistent_layers.view_map().dom()
    }

    pub closed spec fn held(self) -> Map<u32, NodeHeld> {
        self.held_layers.view_map()
    }

    pub closed spec fn armed(self) -> Map<u32, NodeHeld> {
        self.armed_nodes.view_map()
    }

    /// The internal invariant: the active layers are exactly the persistent and held ones, in
    /// declared order.
    pub closed spec fn inv(self) -> bool {
        &&& self.applied.wf()
        &&& self.activators.wf()
        &&& self.persistent_layers.wf()
        &&& self.held_layers.wf()
        &&& self.armed_nodes.wf()
        &&& layers_of(self.active_layers@, self.persistent(), self.held())
        &&& forall|k: u32| self.persistent().contains(k) ==> k < 65536
        &&& forall|k: u32| self.held().contains_key(k) ==> k < 65536
    }

    /// The state fits `program`: its action set and every active layer exist.
    pub open spec fn valid_for(self, program: Program) -> bool {
        &&& self.inv()
        &&& program.wf()
        &&& (self.spec_active_set().0 as int) < program.sets@.len()
        &&& forall|k: u32|
            #![trigger self.persistent().contains(k)]
            self.persistent().contains(k) ==> (k as int) < program.sets@[self.spec_active_set().0 as int].layers@.len()
        &&& forall|k: u32|
            #![trigger self.held().contains_key(k)]
            self.held().contains_key(k) ==> (k as int) < program.sets@[self.spec_active_set().0 as int].layers@.len()
    }

    /// Every active layer of a mapper fitting `program` exists in its active set.
    pub proof fn lemma_active_layers_exist(self, program: Program)
        requires
            self.valid_for(program),
        ensures
            forall|i: int|
                0 <= i < self.spec_active_layers().len() ==> (#[trigger] self.spec_active_layers()[i].0 as int)
                    < program.sets@[self.spec_active_set().0 as int].layers@.len(),
    {
        let layers = self.spec_active_layers();
        assert forall|i: int| 0 <= i < layers.len() implies (#[trigger] layers[i].0 as int)
            < program.sets@[self.spec_active_set().0 as int].layers@.len() by {
            assert(layers.contains(layers[i]));
            assert(self.persistent().contains(layers[i].0 as u32) || self.held().contains_key(layers[i].0 as u32));
        }
    }

    /// The applied outputs are kept in code order and the layer stack in declared order, each
    /// exactly the members the state names.
    pub proof fn lemma_ordered(self)
        requires
            self.inv(),
        ensures
            crate::mapper::reconcile::increasing(self.applied_levels().keys),
            crate::mapper::reconcile::increasing(self.applied_levels().mouse_buttons),
            crate::mapper::reconcile::increasing(self.applied_levels().pad_buttons),
            layers_of(self.spec_active_layers(), self.persistent(), self.held()),
    {
        self.applied.lemma_ordered();
    }

    /// A fresh mapper for `program`, on its default action set with no active layers.
    pub fn new(program: &Program) -> (m: Mapper)
        ensures
            m.inv(),
            m.spec_active_set() == program.default_set,
            m.spec_active_layers().len() == 0,
            m.persistent().is_empty(),
            m.held().is_empty(),
            m.armed().is_empty(),
            m.applied_levels() == no_levels(),
            m.act_table() == fresh_table(),
            program.wf() ==> m.valid_for(*program),
            fresh(m, *program),
    {
        let applied = AppliedLevels::new();
        let m = Mapper {
            active_set: program.default_set,
            active_layers: Vec::new(),
            applied,
            activators: Activators::new(),
            persistent_layers: IdMap::new(),
            held_layers: IdMap::new(),
            armed_nodes: IdMap::new(),
        };
        assert(m.applied_levels().keys =~= no_levels().keys);
        assert(m.applied_levels().mouse_buttons =~= no_levels().mouse_buttons);
        assert(m.applied_levels().pad_buttons =~= no_levels().pad_buttons);
        assert(m.persistent() =~= Set::<u32>::empty());
        m
    }

    /// Re-seed the mapper for a (possibly different) `program`: back to its default set with no
    /// layers, no armed nodes and fresh activators, but keeping the applied output levels, so the
    /// next tick's reconcile releases the outgoing program's outputs and applies the incoming one's.
    pub fn switch_program(&mut self, program: &Program)
        requires
            old(self).inv(),
        ensures
            final(self).inv(),
            final(self).spec_active_set() == program.default_set,
            final(self).spec_active_layers().len() == 0,
            final(self).persistent().is_empty(),
            final(self).held().is_empty(),
            final(self).armed().is_empty(),
            final(self).act_table() == fresh_table(),
            final(self).applied_levels() == old(self).applied_levels(),
            program.wf() ==> final(self).valid_for(*program),
    {
        self.active_set = program.default_set;
        self.active_layers = Vec::new();
        self.persistent_layers = IdMap::new();
        self.held_layers = IdMap::new();
        self.armed_nodes = IdMap::new();
        self.activators = Activators::new();
        assert(self.persistent() =~= Set::<u32>::empty());
    }

    /// Release every currently-applied output (the bound device went away, so nothing may stick):
    /// reconcile against an empty desired set.
    pub fn release_all(&mut self, out: &mut Vec<OutputEvent>)
        requires
            old(self).inv(),
        ensures
            final(self).inv(),
            final(out)@ == old(out)@ + reconcile_events(old(self).applied_levels(), no_levels()),
            old(self).applied_levels() == no_levels() ==> final(out)@ == old(out)@,
            final(self).applied_levels() == no_levels(),
            final(self).spec_active_set() == old(self).spec_active_set(),
            final(self).spec_active_layers() == old(self).spec_active_layers(),
            final(self).persistent() == old(self).persistent(),
            final(self).held() == old(self).held(),
            final(self).armed() == old(self).armed(),
            final(self).act_table() == old(self).act_table(),
    {
        let none = DesiredLevels::new();
        assert(none.levels().keys =~= no_levels().keys);
        assert(none.levels().mouse_buttons =~= no_levels().mouse_buttons);
        assert(none.levels().pad_buttons =~= no_levels().pad_buttons);
        self.applied.reconcile(&none, out);
        proof {
            crate::mapper::reconcile::law_reconcile_settles(no_levels());
            if old(self).applied_levels() == no_levels() {
                assert(out@ =~= old(out)@);
            }
        }
    }

    /// The winning binding for `source` and its identity: the highest-precedence active layer
    /// that binds it (precedence = declared order), else the base binding, else `None`.
    pub fn resolve<'p>(&self, set: &'p CompiledSet, source: &InputSource) -> (r: Option<
        (&'p CompiledBinding, BindingKey),
    >)
        requires
            self.inv(),
            forall|i: int| 0 <= i < self.spec_active_layers().len() ==> (#[trigger] self.spec_active_layers()[i].0 as int)
                < set.layers@.len(),
        ensures
            r matches Some((b, k)) ==> resolve_in(*set, self.spec_active_layers(), *source) == Some((*b, k)),
            r is None ==> resolve_in(*set, self.spec_active_layers(), *source) is None,
    {
        let ghost layers = self.active_layers@;
        let mut i: usize = self.active_layers.len();
        assert(layers.take(i as int) =~= layers);
        while i > 0
            invariant
                0 <= i <= layers.len(),
                layers == self.active_layers@,
                forall|j: int| 0 <= j < layers.len() ==> (#[trigger] layers[j].0 as int) < set.layers@.len(),
                resolve_in(*set, layers, *source) == resolve_in(*set, layers.take(i as int), *source),
            decreases i,
        {
            let id = self.active_layers[i - 1];
            let ghost t = layers.take(i as int);
            assert(t.last() == id);
            assert(t.drop_last() =~= layers.take(i - 1));
            if let Some(b) = set.layer(&id).bindings.get(source) {
                return Some((b, BindingKey::Layer(id)));
            }
            i -= 1;
        }
        assert(layers.take(0) =~= Seq::<LayerId>::empty());
        match set.base.get(source) {
            Some(b) => Some((b, BindingKey::Base)),
            None => None,
        }
    }

    /// Fold a tick's collected layer/set changes into the layer stack for the next tick. A set
    /// change that fires is a full swap that clears the layer stacks; otherwise firing removes and
    /// adds update the persistent layers and a hold-layer persists while its node stays held.
    /// Persistent ops are deduplicated per node: one fires only if its node is not armed from an
    /// earlier tick of the same press; the armed set is rebuilt like the hold-layers (kept while
    /// held, plus every node that requested a persistent op this tick).
    fn reconcile_layer_ops(&mut self, frame: &LogicalFrame, ops: LayerOps)
        requires
            old(self).inv(),
            ops.wf(),
            forall|k: u32| ops.view().holds.contains_key(k) ==> k < 65536,
        ensures
            final(self).inv(),
            final(self).spec_active_set() == next_set(old(self).spec_active_set(), ops.view(), old(self).armed()),
            final(self).persistent() == next_persistent(old(self).persistent(), ops.view(), old(self).armed()),
            final(self).held() == next_held(old(self).held(), ops.view(), old(self).armed(), *frame),
            final(self).armed() == next_armed(old(self).armed(), ops.view(), *frame),
            final(self).applied_levels() == old(self).applied_levels(),
            final(self).act_table() == old(self).act_table(),
    {
        let ghost armed0 = self.armed();
        let ghost p0 = self.persistent();
        let ghost h0 = self.held();
        let sc_fires = match &ops.set_change {
            Some((_, n)) => !self.armed_nodes.contains_key(n.key()),
            None => false,
        };
        assert(sc_fires == set_change_fires(ops.view(), armed0));
        if sc_fires {
            if let Some((set, _)) = ops.set_change {
                self.active_set = set;
            }
            self.persistent_layers = IdMap::new();
            self.held_layers = IdMap::new();
            assert(self.persistent() =~= Set::<u32>::empty());
            assert(self.held() =~= Map::<u32, NodeHeld>::empty());
        } else {
            apply_removes(&mut self.persistent_layers, &ops.removes, &self.armed_nodes);
            apply_adds(&mut self.persistent_layers, &ops.adds, &self.armed_nodes);
            let mut next: IdMap<NodeHeld> = IdMap::new();
            keep_held(&mut next, &self.held_layers, frame);
            keep_held(&mut next, &ops.holds, frame);
            self.held_layers = next;
            proof {
                assert(Map::<u32, NodeHeld>::empty().union_prefer_right(still_held(h0, *frame)) =~= still_held(
                    h0,
                    *frame,
                ));
                assert(self.persistent() =~= next_persistent(p0, ops.view(), armed0));
                assert forall|k: u32| self.held().contains_key(k) implies k < 65536 by {
                    if still_held(h0, *frame).contains_key(k) {
                        assert(h0.contains_key(k));
                    } else {
                        assert(ops.view().holds.contains_key(k));
                    }
                }
                assert forall|k: u32| self.persistent().contains(k) implies k < 65536 by {
                    if !p0.contains(k) {
                        let q = choose|q: int| 0 <= q < ops.adds@.len() && ops.adds@[q].0.0 as u32 == k
                            && fires(armed0, #[trigger] ops.adds@[q].1);
                    }
                }
            }
        }
        let ghost hf = self.held();
        let ghost pf = self.persistent();
        assert(forall|k: u32| hf.contains_key(k) ==> k < 65536);
        assert(forall|k: u32| pf.contains(k) ==> k < 65536);
        let mut armed: IdMap<NodeHeld> = IdMap::new();
        keep_held(&mut armed, &self.armed_nodes, frame);
        let req = requesting_nodes(&ops);
        arm_nodes(&mut armed, &req, frame);
        proof {
            assert(Map::<u32, NodeHeld>::empty().union_prefer_right(still_held(armed0, *frame)) =~= still_held(
                armed0,
                *frame,
            ));
        }
        self.armed_nodes = armed;
        assert(self.held() == hf && self.persistent() == pf);
        self.active_layers = layers_in(&self.persistent_layers, &self.held_layers);
    }

    /// Run one mapping pass: resolve the winning binding of every input (against the layer state
    /// frozen at tick start), evaluate it into desired output levels, layer/set changes and
    /// haptic pulses, reconcile the levels into `out` (emitting only the diffs), and fold the
    /// layer/set changes into the stack for the next tick.
    ///
    /// `virt` carries the analog side's virtual-button levels for the stick/pad behaviors; a
    /// source it does not name reads all-released.
    pub fn tick(
        &mut self,
        frame: &LogicalFrame,
        virt: &SourceMap<VirtualButtons>,
        tick: Tick,
        program: &Program,
        out: &mut Vec<OutputEvent>,
        haptics: &mut Vec<HapticReq>,
    )
        requires
            old(self).valid_for(*program),
            tick.0 <= u64::MAX - TAP_MS,
        ensures
            final(self).valid_for(*program),
            ({
                let acc = tick_upto(
                    program.sets@[old(self).spec_active_set().0 as int],
                    old(self).spec_active_layers(),
                    old(self).act_table(),
                    *frame,
                    *virt,
                    tick.0,
                    N_SOURCES as int,
                );
                &&& final(self).act_table() == acc.acts
                &&& levels_add(no_levels(), final(self).applied_levels(), acc.fired)
                &&& final(out)@ == old(out)@ + reconcile_events(
                    old(self).applied_levels(),
                    final(self).applied_levels(),
                )
                &&& final(haptics)@ == old(haptics)@ + acc.haptics
                &&& final(self).spec_active_set() == next_set(
                    old(self).spec_active_set(),
                    acc.ops,
                    old(self).armed(),
                )
                &&& final(self).persistent() == next_persistent(
                    old(self).persistent(),
                    acc.ops,
                    old(self).armed(),
                )
                &&& final(self).held() == next_held(old(self).held(), acc.ops, old(self).armed(), *frame)
                &&& final(self).armed() == next_armed(old(self).armed(), acc.ops, *frame)
            }),
            ticked(*old(self), *final(self), *frame, *virt, tick.0, *program, old(out)@, final(out)@, old(haptics)@, final(haptics)@),
    {
        let ghost set0 = program.sets@[self.active_set.0 as int];
        let ghost layers0 = self.active_layers@;
        let ghost acts0 = self.act_table();
        let ghost ns = program.sets@.len() as int;
        let ghost nl = set0.layers@.len() as int;
        let set = program.set(&self.active_set);
        assert(set.refs_ok(ns));
        let mut desired = DesiredLevels::new();
        let mut ops = LayerOps::new();
        let ghost h0 = haptics@;
        proof {
            assert(ops.view().adds =~= no_ops().adds);
            assert(ops.view().removes =~= no_ops().removes);
            assert(ops.view() == no_ops());
            self.activators.lemma_len();
            assert forall|i: int| 0 <= i < layers0.len() implies (#[trigger] layers0[i].0 as int) < nl by {
                assert(layers0.contains(layers0[i]));
                assert(self.persistent().contains(layers0[i].0 as u32) || self.held().contains_key(
                    layers0[i].0 as u32,
                ));
            }
        }
        let mut c: u8 = 0;
        while c < 31
            invariant
                0 <= c <= 31,
                acts0.len() == N_SOURCES,
                *set == set0,
                set0 == program.sets@[self.active_set.0 as int],
                set.refs_ok(ns),
                nl == set0.layers@.len(),
                nl <= 65536,
                layers0 == self.spec_active_layers(),
                forall|i: int| 0 <= i < layers0.len() ==> (#[trigger] layers0[i].0 as int) < nl,
                self.inv(),
                self.valid_for(*program),
                tick.0 <= u64::MAX - TAP_MS,
                desired.wf(),
                ops.wf(),
                ops_ok(ops.view(), ns, nl),
                self.act_table() == tick_upto(set0, layers0, acts0, *frame, *virt, tick.0, c as int).acts,
                levels_add(
                    no_levels(),
                    desired.levels(),
                    tick_upto(set0, layers0, acts0, *frame, *virt, tick.0, c as int).fired,
                ),
                ops.view() == tick_upto(set0, layers0, acts0, *frame, *virt, tick.0, c as int).ops,
                haptics@ == h0 + tick_upto(set0, layers0, acts0, *frame, *virt, tick.0, c as int).haptics,
                self.applied_levels() == old(self).applied_levels(),
                self.spec_active_set() == old(self).spec_active_set(),
                self.persistent() == old(self).persistent(),
                self.held() == old(self).held(),
                self.armed() == old(self).armed(),
            decreases 31 - c,
        {
            let source = InputSource::from_code(c);
            let ghost p = tick_upto(set0, layers0, acts0, *frame, *virt, tick.0, c as int);
            proof {
                lemma_resolve_ok(set0, layers0, source, ns);
                lemma_tick_acts_len(set0, layers0, acts0, *frame, *virt, tick.0, c as int);
            }
            match self.resolve(set, &source) {
                Some((binding, key)) => {
                    let v = match virt.get(&source) {
                        Some(v) => *v,
                        None => VirtualButtons::released(),
                    };
                    let ghost dprev = desired.levels();
                    let ghost st = binding_step(
                        *binding,
                        source,
                        *frame,
                        v,
                        rebound(p.acts[c as int], key).slots,
                        tick.0,
                        p.ops,
                    );
                    proof {
                        lemma_binding_step_ok(
                            *binding,
                            source,
                            *frame,
                            v,
                            rebound(p.acts[c as int], key).slots,
                            tick.0,
                            p.ops,
                            ns,
                            nl,
                        );
                    }
                    let slots = self.activators.for_binding(&source, key);
                    eval_binding(binding, &source, frame, &v, slots, &tick, &mut desired, &mut ops, haptics);
                    proof {
                        crate::mapper::command::lemma_levels_add_trans(
                            no_levels(),
                            dprev,
                            desired.levels(),
                            p.fired,
                            st.fired,
                        );
                        assert(haptics@ =~= h0 + (p.haptics + st.haptics));
                    }
                },
                None => {},
            }
            c += 1;
        }
        self.applied.reconcile(&desired, out);
        proof {
            assert forall|k: u32| ops.view().holds.contains_key(k) implies k < 65536 by {}
        }
        let ghost acc_ops = ops.view();
        self.reconcile_layer_ops(frame, ops);
        proof {
            let armed0 = old(self).armed();
            if set_change_fires(acc_ops, armed0) {
            } else {
                assert forall|k: u32| #![trigger self.persistent().contains(k)]
                    self.persistent().contains(k) implies (k as int) < nl by {
                    if !old(self).persistent().contains(k) {
                        let q = choose|q: int| 0 <= q < acc_ops.adds.len() && acc_ops.adds[q].0.0 as u32 == k
                            && fires(armed0, #[trigger] acc_ops.adds[q].1);
                        assert((acc_ops.adds[q].0.0 as int) < nl);
                    }
                }
                assert forall|k: u32| #![trigger self.held().contains_key(k)]
                    self.held().contains_key(k) implies (k as int) < nl by {
                    if still_held(old(self).held(), *frame).contains_key(k) {
                        assert(old(self).held().contains_key(k));
                    } else {
                        assert(acc_ops.holds.contains_key(k));
                    }
                }
            }
        }
    }

    /// Make layer `id` active as if a persistent `AddLayer` had fired: it joins the persistent
    /// layers and the active stack at once.
    pub fn force_layer(&mut self, id: LayerId)
        requires
            old(self).inv(),
        ensures
            final(self).inv(),
            final(self).persistent() == old(self).persistent().insert(id.0 as u32),
            final(self).held() == old(self).held(),
            final(self).armed() == old(self).armed(),
            final(self).spec_active_set() == old(self).spec_active_set(),
            final(self).applied_levels() == old(self).applied_levels(),
            final(self).act_table() == old(self).act_table(),
    {
        self.persistent_layers.insert(id.0 as u32, ());
        assert(self.persistent() =~= old(self).persistent().insert(id.0 as u32));
        self.active_layers = layers_in(&self.persistent_layers, &self.held_layers);
    }

    /// The action set currently active.
    pub fn active_set(&self) -> (s: SetId)
        ensures
            s == self.spec_active_set(),
    {
        self.active_set
    }

    /// The layers held by a `HoldLayer`, in declared order.
    pub fn held_layer_ids(&self) -> (r: Vec<LayerId>)
        requires
            self.inv(),
        ensures
            forall|i: int, j: int| 0 <= i < j < r@.len() ==> #[trigger] r@[i].0 < #[trigger] r@[j].0,
            forall|l: LayerId| #[trigger] r@.contains(l) == self.held().contains_key(l.0 as u32),
    {
        ids_of(&self.held_layers)
    }

    /// The persistent layers, in declared order.
    pub fn persistent_layer_ids(&self) -> (r: Vec<LayerId>)
        requires
            self.inv(),
        ensures
            forall|i: int, j: int| 0 <= i < j < r@.len() ==> #[trigger] r@[i].0 < #[trigger] r@[j].0,
            forall|l: LayerId| #[trigger] r@.contains(l) == self.persistent().contains(l.0 as u32),
    {
        ids_of(&self.persistent_layers)
    }
}

/// What one tick does to a mapper in state `m0` (ending in `m1`), given the frame, the virtual
/// buttons, the clock and the program: the events appended to `out0` and the pulses appended to
/// `h0` (the contract of [`Mapper::tick`]).
pub open spec fn ticked(
    m0: Mapper,
    m1: Mapper,
    frame: LogicalFrame,
    virt: SourceMap<VirtualButtons>,
    now: u64,
    program: Program,
    out0: Seq<OutputEvent>,
    out1: Seq<OutputEvent>,
    h0: Seq<HapticReq>,
    h1: Seq<HapticReq>,
) -> bool {
    let acc = tick_upto(
        program.sets@[m0.spec_active_set().0 as int],
        m0.spec_active_layers(),
        m0.act_table(),
        frame,
        virt,
        now,
        N_SOURCES as int,
    );
    &&& m1.valid_for(program)
    &&& m1.act_table() == acc.acts
    &&& levels_add(no_levels(), m1.applied_levels(), acc.fired)
    &&& out1 == out0 + reconcile_events(m0.applied_levels(), m1.applied_levels())
    &&& h1 == h0 + acc.haptics
    &&& m1.spec_active_set() == next_set(m0.spec_active_set(), acc.ops, m0.armed())
    &&& m1.persistent() == next_persistent(m0.persistent(), acc.ops, m0.armed())
    &&& m1.held() == next_held(m0.held(), acc.ops, m0.armed(), frame)
    &&& m1.armed() == next_armed(m0.armed(), acc.ops, frame)
}

/// Two mappers are in the same state: same action set, layer stack, applied outputs, activator
/// state and layer bookkeeping.
pub open spec fn same_state(m: Mapper, n: Mapper) -> bool {
    &&& m.spec_active_set() == n.spec_active_set()
    &&& m.spec_active_layers() == n.spec_active_layers()
    &&& m.applied_levels() == n.applied_levels()
    &&& m.act_table() == n.act_table()
    &&& m.persistent() == n.persistent()
    &&& m.held() == n.held()
    &&& m.armed() == n.armed()
}

/// A mapper as [`Mapper::new`] makes it for `program`: on the default set, no layers, nothing
/// applied, every activator fresh.
pub open spec fn fresh(m: Mapper, program: Program) -> bool {
    &&& m.spec_active_set() == program.default_set
    &&& m.spec_active_layers().len() == 0
    &&& m.persistent().is_empty()
    &&& m.held().is_empty()
    &&& m.armed().is_empty()
    &&& m.applied_levels() == no_levels()
    &&& m.act_table() == fresh_table()
}

/// Each mapper of `ms` is the one before it ticked on the matching frame, virtual buttons and
/// clock stamp, emitting `outs` and `hs`.
#[verifier::opaque]
pub open spec fn traced(
    ms: Seq<Mapper>,
    frames: Seq<LogicalFrame>,
    virts: Seq<SourceMap<VirtualButtons>>,
    nows: Seq<u64>,
    program: Program,
    outs: Seq<Seq<OutputEvent>>,
    hs: Seq<Seq<HapticReq>>,
) -> bool {
    forall|j: int|
        0 <= j < frames.len() ==> ticked(
            #[trigger] ms[j],
            ms[j + 1],
            frames[j],
            virts[j],
            nows[j],
            program,
            Seq::empty(),
            outs[j],
            Seq::empty(),
            hs[j],
        )
}

/// A recorded trace replays identically from a fresh start: two mappers made for the same
/// program and ticked on the same sequence of frames, virtual buttons and clock stamps emit the
/// same events and the same haptic pulses on every tick.
pub proof fn law_trace_replays(
    a: Seq<Mapper>,
    b: Seq<Mapper>,
    frames: Seq<LogicalFrame>,
    virts: Seq<SourceMap<VirtualButtons>>,
    nows: Seq<u64>,
    program: Program,
    outs_a: Seq<Seq<OutputEvent>>,
    outs_b: Seq<Seq<OutputEvent>>,
    hs_a: Seq<Seq<HapticReq>>,
    hs_b: Seq<Seq<HapticReq>>,
)
    requires
        a.len() == frames.len() + 1,
        b.len() == frames.len() + 1,
        virts.len() == frames.len(),
        nows.len() == frames.len(),
        outs_a.len() == frames.len(),
        outs_b.len() == frames.len(),
        hs_a.len() == frames.len(),
        hs_b.len() == frames.len(),
        fresh(a[0], program),
        fresh(b[0], program),
        traced(a, frames, virts, nows, program, outs_a, hs_a),
        traced(b, frames, virts, nows, program, outs_b, hs_b),
    ensures
        forall|k: int| 0 <= k < frames.len() ==> (#[trigger] outs_a[k]) == outs_b[k],
        forall|k: int| 0 <= k < frames.len() ==> (#[trigger] hs_a[k]) == hs_b[k],
{
    assert forall|k: int| 0 <= k < frames.len() implies (#[trigger] outs_a[k]) == outs_b[k] && hs_a[k] == hs_b[k] by {
        lemma_replay_at(a, b, frames, virts, nows, program, outs_a, outs_b, hs_a, hs_b, k);
    }
    assert forall|k: int| 0 <= k < frames.len() implies (#[trigger] hs_a[k]) == hs_b[k] by {
        lemma_replay_at(a, b, frames, virts, nows, program, outs_a, outs_b, hs_a, hs_b, k);
    }
}

/// Along two traces ticked alike from fresh mappers, tick `k` emits alike.
proof fn lemma_replay_at(
    a: Seq<Mapper>,
    b: Seq<Mapper>,
    frames: Seq<LogicalFrame>,
    virts: Seq<SourceMap<VirtualButtons>>,
    nows: Seq<u64>,
    program: Program,
    outs_a: Seq<Seq<OutputEvent>>,
    outs_b: Seq<Seq<OutputEvent>>,
    hs_a: Seq<Seq<HapticReq>>,
    hs_b: Seq<Seq<HapticReq>>,
    k: int,
)
    requires
        0 <= k < frames.len(),
        a.len() == frames.len() + 1,
        b.len() == frames.len() + 1,
        fresh(a[0], program),
        fresh(b[0], program),
        traced(a, frames, virts, nows, program, outs_a, hs_a),
        traced(b, frames, virts, nows, program, outs_b, hs_b),
    ensures
        outs_a[k] == outs_b[k],
        hs_a[k] == hs_b[k],
{
    lemma_replay_upto(a, b, frames, virts, nows, program, outs_a, outs_b, hs_a, hs_b, k);
    reveal(traced);
    assert(ticked(a[k], a[k + 1], frames[k], virts[k], nows[k], program, Seq::empty(), outs_a[k], Seq::empty(), hs_a[k]));
    assert(ticked(b[k], b[k + 1], frames[k], virts[k], nows[k], program, Seq::empty(), outs_b[k], Seq::empty(), hs_b[k]));
    law_tick_replays(
        a[k],
        a[k + 1],
        b[k],
        b[k + 1],
        frames[k],
        virts[k],
        nows[k],
        program,
        Seq::empty(),
        outs_a[k],
        outs_b[k],
        Seq::empty(),
        hs_a[k],
        hs_b[k],
    );
}

/// Along two traces ticked alike from fresh mappers, the states agree at every step.
proof fn lemma_replay_upto(
    a: Seq<Mapper>,
    b: Seq<Mapper>,
    frames: Seq<LogicalFrame>,
    virts: Seq<SourceMap<VirtualButtons>>,
    nows: Seq<u64>,
    program: Program,
    outs_a: Seq<Seq<OutputEvent>>,
    outs_b: Seq<Seq<OutputEvent>>,
    hs_a: Seq<Seq<HapticReq>>,
    hs_b: Seq<Seq<HapticReq>>,
    k: int,
)
    requires
        0 <= k <= frames.len(),
        a.len() == frames.len() + 1,
        b.len() == frames.len() + 1,
        fresh(a[0], program),
        fresh(b[0], program),
        traced(a, frames, virts, nows, program, outs_a, hs_a),
        traced(b, frames, virts, nows, program, outs_b, hs_b),
    ensures
        same_state(a[k], b[k]),
    decreases k,
{
    if k == 0 {
        assert(a[0].spec_active_layers() =~= b[0].spec_active_layers());
        assert(a[0].persistent() =~= b[0].persistent());
        assert(a[0].held() =~= b[0].held());
        assert(a[0].armed() =~= b[0].armed());
    } else {
        lemma_replay_upto(a, b, frames, virts, nows, program, outs_a, outs_b, hs_a, hs_b, k - 1);
        reveal(traced);
        let p = k - 1;
        assert(ticked(a[p], a[p + 1], frames[p], virts[p], nows[p], program, Seq::empty(), outs_a[p], Seq::empty(), hs_a[p]));
        assert(ticked(b[p], b[p + 1], frames[p], virts[p], nows[p], program, Seq::empty(), outs_b[p], Seq::empty(), hs_b[p]));
        law_tick_replays(
            a[p],
            a[p + 1],
            b[p],
            b[p + 1],
            frames[p],
            virts[p],
            nows[p],
            program,
            Seq::empty(),
            outs_a[p],
            outs_b[p],
            Seq::empty(),
            hs_a[p],
            hs_b[p],
        );
    }
}

/// Two sequences strictly ordered by `key` with the same members are the same sequence.
pub proof fn lemma_ordered_unique<T>(a: Seq<T>, b: Seq<T>, key: spec_fn(T) -> int)
    requires
        forall|i: int, j: int| 0 <= i < j < a.len() ==> key(#[trigger] a[i]) < key(#[trigger] a[j]),
        forall|i: int, j: int| 0 <= i < j < b.len() ==> key(#[trigger] b[i]) < key(#[trigger] b[j]),
        forall|x: T| #[trigger] a.contains(x) == b.contains(x),
    ensures
        a == b,
    decreases a.len(),
{
    if a.len() == 0 {
        if b.len() > 0 {
            assert(b.contains(b[0]));
            assert(a.contains(b[0]));
        }
        assert(a =~= b);
    } else {
        assert(a.contains(a[0]));
        assert(b.contains(a[0]));
        assert(b.contains(b[0]));
        assert(a.contains(b[0]));
        let i = choose|i: int| 0 <= i < a.len() && a[i] == b[0];
        let j = choose|j: int| 0 <= j < b.len() && b[j] == a[0];
        if i > 0 {
            assert(key(a[0]) < key(a[i]));
            if j > 0 {
                assert(key(b[0]) < key(b[j]));
            }
        }
        assert(i == 0);
        assert(a[0] == b[0]);
        let a1 = a.drop_first();
        let b1 = b.drop_first();
        assert(a1.len() == a.len() - 1 && b1.len() == b.len() - 1);
        assert forall|x: T| #[trigger] a1.contains(x) implies b1.contains(x) by {
            let k = choose|k: int| 0 <= k < a1.len() && a1[k] == x;
            assert(a[k + 1] == x);
            assert(a.contains(x));
            assert(b.contains(x));
            let m = choose|m: int| 0 <= m < b.len() && b[m] == x;
            if m == 0 {
                assert(key(a[0]) < key(a[k + 1]));
                assert(false);
            }
            assert(b1[m - 1] == x);
        }
        assert forall|x: T| #[trigger] b1.contains(x) implies a1.contains(x) by {
            let k = choose|k: int| 0 <= k < b1.len() && b1[k] == x;
            assert(b[k + 1] == x);
            assert(b.contains(x));
            assert(a.contains(x));
            let m = choose|m: int| 0 <= m < a.len() && a[m] == x;
            if m == 0 {
                assert(key(b[0]) < key(b[k + 1]));
                assert(false);
            }
            assert(a1[m - 1] == x);
        }
        assert forall|p: int, q: int| 0 <= p < q < a1.len() implies key(#[trigger] a1[p]) < key(#[trigger] a1[q]) by {
            assert(a1[p] == a[p + 1] && a1[q] == a[q + 1]);
        }
        assert forall|p: int, q: int| 0 <= p < q < b1.len() implies key(#[trigger] b1[p]) < key(#[trigger] b1[q]) by {
            assert(b1[p] == b[p + 1] && b1[q] == b[q + 1]);
        }
        lemma_ordered_unique(a1, b1, key);
        assert(a =~= b) by {
            assert forall|k: int| 0 <= k < a.len() implies a[k] == b[k] by {
                if k > 0 {
                    assert(a[k] == a1[k - 1]);
                    assert(b[k] == b1[k - 1]);
                }
            }
        }
    }
}

/// A recorded trace replays identically: two mappers in the same state, ticked on the same frame,
/// virtual buttons, clock and program, append the same events and the same haptic pulses and end
/// in the same state.
pub proof fn law_tick_replays(
    a0: Mapper,
    a1: Mapper,
    b0: Mapper,
    b1: Mapper,
    frame: LogicalFrame,
    virt: SourceMap<VirtualButtons>,
    now: u64,
    program: Program,
    out0: Seq<OutputEvent>,
    out_a: Seq<OutputEvent>,
    out_b: Seq<OutputEvent>,
    h0: Seq<HapticReq>,
    h_a: Seq<HapticReq>,
    h_b: Seq<HapticReq>,
)
    requires
        same_state(a0, b0),
        ticked(a0, a1, frame, virt, now, program, out0, out_a, h0, h_a),
        ticked(b0, b1, frame, virt, now, program, out0, out_b, h0, h_b),
    ensures
        out_a == out_b,
        h_a == h_b,
        same_state(a1, b1),
{
    a1.lemma_ordered();
    b1.lemma_ordered();
    let la = a1.applied_levels();
    let lb = b1.applied_levels();
    lemma_ordered_unique(la.keys, lb.keys, |k: Key| k.spec_code() as int);
    lemma_ordered_unique(la.mouse_buttons, lb.mouse_buttons, |k: MouseButton| k.spec_code() as int);
    lemma_ordered_unique(la.pad_buttons, lb.pad_buttons, |k: GamepadButton| k.spec_code() as int);
    assert(la == lb);
    lemma_ordered_unique(a1.spec_active_layers(), b1.spec_active_layers(), |l: LayerId| l.0 as int);
}

/// Resolution picks the highest-precedence active layer that binds the source, else the base
/// binding: a layer winner is active, binds the source, and no higher active layer does; a base
/// winner means no active layer binds the source; no winner means nothing binds it.
pub proof fn law_resolve_highest_layer(set: CompiledSet, layers: Seq<LayerId>, source: InputSource)
    requires
        forall|i: int, j: int| 0 <= i < j < layers.len() ==> #[trigger] layers[i].0 < #[trigger] layers[j].0,
    ensures
        resolve_in(set, layers, source) matches Some((b, BindingKey::Layer(l))) ==> {
            &&& layers.contains(l)
            &&& set.layers@[l.0 as int].bindings.lookup(source) == Some(b)
            &&& forall|i: int|
                0 <= i < layers.len() && layers[i].0 > l.0 ==> #[trigger] set.layers@[layers[i].0 as int].bindings.lookup(
                    source,
                ) is None
        },
        resolve_in(set, layers, source) matches Some((b, BindingKey::Base)) ==> {
            &&& set.base.lookup(source) == Some(b)
            &&& forall|i: int|
                0 <= i < layers.len() ==> #[trigger] set.layers@[layers[i].0 as int].bindings.lookup(source) is None
        },
        resolve_in(set, layers, source) is None ==> {
            &&& set.base.lookup(source) is None
            &&& forall|i: int|
                0 <= i < layers.len() ==> #[trigger] set.layers@[layers[i].0 as int].bindings.lookup(source) is None
        },
    decreases layers.len(),
{
    if layers.len() > 0 {
        let init = layers.drop_last();
        let last = layers.last();
        law_resolve_highest_layer(set, init, source);
        assert forall|i: int| 0 <= i < init.len() implies #[trigger] layers[i] == init[i] by {}
        if set.layers@[last.0 as int].bindings.lookup(source) is None {
            assert forall|i: int|
                0 <= i < layers.len() && (forall|j: int|
                    0 <= j < init.len() ==> #[trigger] set.layers@[init[j].0 as int].bindings.lookup(source) is None)
                implies #[trigger] set.layers@[layers[i].0 as int].bindings.lookup(source) is None by {
                if i < init.len() {
                    assert(layers[i] == init[i]);
                }
            }
            if let Some((_, BindingKey::Layer(l))) = resolve_in(set, init, source) {
                let k = choose|k: int| 0 <= k < init.len() && init[k] == l;
                assert(layers[k] == l);
                assert forall|i: int|
                    0 <= i < layers.len() && layers[i].0 > l.0 implies #[trigger] set.layers@[layers[i].0 as int].bindings.lookup(
                        source,
                    ) is None by {
                    if i < init.len() {
                        assert(layers[i] == init[i]);
                    }
                }
            }
        } else {
            assert(layers[layers.len() - 1] == last);
            assert forall|i: int| 0 <= i < layers.len() implies !(layers[i].0 > last.0) by {
                if i < layers.len() - 1 {
                    assert(layers[i].0 < layers[layers.len() - 1].0);
                }
            }
        }
    }
}

/// A persistent op from an armed node changes nothing: when every node that requested one is
/// already armed (it fired earlier in the same press), the action set and the persistent layers
/// stay as they were.
pub proof fn law_armed_nodes_change_nothing(
    set: SetId,
    p: Set<u32>,
    ops: OpsView,
    armed: Map<u32, NodeHeld>,
)
    requires
        forall|i: int| 0 <= i < requesting_seq(ops).len() ==> armed.contains_key(
            crate::mapper::layers::node_key(#[trigger] requesting_seq(ops)[i]),
        ),
    ensures
        next_set(set, ops, armed) == set,
        next_persistent(p, ops, armed) == p,
{
    let r = requesting_seq(ops);
    if let Some(sc) = ops.set_change {
        assert(r[0] == sc.1);
    }
    let off: int = if ops.set_change is Some { 1 } else { 0 };
    assert forall|l: u32| !crate::mapper::layers::fired_on(ops.removes, armed, l) by {
        if crate::mapper::layers::fired_on(ops.removes, armed, l) {
            let i = choose|i: int| 0 <= i < ops.removes.len() && ops.removes[i].0.0 as u32 == l && fires(
                armed,
                #[trigger] ops.removes[i].1,
            );
            assert(r[off + ops.adds.len() + i] == ops.removes[i].1);
        }
    }
    assert forall|l: u32| !crate::mapper::layers::fired_on(ops.adds, armed, l) by {
        if crate::mapper::layers::fired_on(ops.adds, armed, l) {
            let i = choose|i: int| 0 <= i < ops.adds.len() && ops.adds[i].0.0 as u32 == l && fires(
                armed,
                #[trigger] ops.adds[i].1,
            );
            assert(r[off + i] == ops.adds[i].1);
        }
    }
    assert(next_persistent(p, ops, armed) =~= p);
}

/// The requesting nodes (the same list the layer fold arms).
pub open spec fn requesting_seq(ops: OpsView) -> Seq<NodeHeld> {
    crate::mapper::layers::requesting(ops)
}

/// A node that requested a persistent op and is still held is armed for the next tick — so, with
/// [`law_armed_nodes_change_nothing`], a press changes the layer/set state at most once.
pub proof fn law_requesting_node_is_armed(
    armed: Map<u32, NodeHeld>,
    ops: OpsView,
    frame: LogicalFrame,
    i: int,
)
    requires
        0 <= i < requesting_seq(ops).len(),
        requesting_seq(ops)[i].spec_held(frame),
    ensures
        next_armed(armed, ops, frame).contains_key(crate::mapper::layers::node_key(requesting_seq(ops)[i])),
{
    lemma_arm_all_keeps(still_held(armed, frame), requesting_seq(ops), frame, i);
}

proof fn lemma_arm_all_keeps(m: Map<u32, NodeHeld>, nodes: Seq<NodeHeld>, frame: LogicalFrame, i: int)
    requires
        0 <= i < nodes.len(),
        nodes[i].spec_held(frame),
    ensures
        crate::mapper::layers::arm_all(m, nodes, frame).contains_key(crate::mapper::layers::node_key(nodes[i])),
    decreases nodes.len(),
{
    if i < nodes.len() - 1 {
        lemma_arm_all_keeps(m, nodes.drop_last(), frame, i);
    }
}

/// A set change that fires swaps the action set and clears both layer stacks.
pub proof fn law_set_change_clears_layers(
    set: SetId,
    p: Set<u32>,
    h: Map<u32, NodeHeld>,
    ops: OpsView,
    armed: Map<u32, NodeHeld>,
    frame: LogicalFrame,
)
    requires
        set_change_fires(ops, armed),
    ensures
        next_set(set, ops, armed) == ops.set_change.unwrap().0,
        next_persistent(p, ops, armed).is_empty(),
        next_held(h, ops, armed, frame).is_empty(),
{
}

/// A hold-layer is only ever latched to a node that is held: every hold-layer after the fold has
/// its node held in the frame.
pub proof fn law_hold_layer_needs_held_node(
    h: Map<u32, NodeHeld>,
    ops: OpsView,
    armed: Map<u32, NodeHeld>,
    frame: LogicalFrame,
    l: u32,
)
    requires
        next_held(h, ops, armed, frame).contains_key(l),
    ensures
        next_held(h, ops, armed, frame)[l].spec_held(frame),
{
}

} // verus!
