//! Layer / action-set change plumbing.
//!
//! Layer and set changes are collected during a tick and applied to the stack for the next
//! tick — the layer state a tick resolves against is frozen at tick start, keeping the per-tick
//! pass a single acyclic walk. A `HoldLayer` latches to its firing node's held-state (via
//! [`NodeHeld`]), not to the winning binding, so it survives self-shadowing (the layer re-binding
//! the very node that triggered it) without flicker.

use vstd::prelude::*;

use crate::idmap::{increasing_keys, IdMap};
use crate::logical::LogicalFrame;
use crate::program::{CompiledAction, LayerId, SetId};
use crate::vocab::{Dir, InputSource, Pull};

verus! {

/// How to re-derive a trigger node's held-state on later ticks. Frame-local triggers (physical
/// bits, group members, soft-pull) re-derive exactly; a layer-dependent virtual button
/// (outer-ring, dpad direction) cannot be re-derived independently of its binding, so it reads
/// released — it may flicker but never sticks.
#[derive(Debug, Clone, Copy, PartialEq, Eq, Structural)]
pub enum NodeHeld {
    Button(InputSource),
    Group(InputSource, Dir),
    SoftPull(InputSource, Pull),
    Virtual,
}

pub open spec fn dir_index(d: Dir) -> u32 {
    match d {
        Dir::Up => 0,
        Dir::Down => 1,
        Dir::Left => 2,
        Dir::Right => 3,
    }
}

/// The identity of a node's physical trigger, independent of its binding — the key the
/// anti-oscillation latch uses. The soft-pull threshold is not part of it.
pub open spec fn node_key(n: NodeHeld) -> u32 {
    match n {
        NodeHeld::Button(s) => s.spec_code() as u32,
        NodeHeld::Group(s, d) => (64 + s.spec_code() * 4 + dir_index(d)) as u32,
        NodeHeld::SoftPull(s, _) => (256 + s.spec_code()) as u32,
        NodeHeld::Virtual => 512,
    }
}

impl NodeHeld {
    /// Whether the trigger node is held in `frame`.
    pub open spec fn spec_held(self, frame: LogicalFrame) -> bool {
        match self {
            NodeHeld::Button(s) => frame.spec_button(s),
            NodeHeld::Group(s, d) => frame.spec_group_member(s, d),
            NodeHeld::SoftPull(s, t) => frame.spec_trigger(s).0 >= t.0,
            NodeHeld::Virtual => false,
        }
    }

    /// Whether the trigger node is held in `frame`.
    pub fn held(&self, frame: &LogicalFrame) -> (r: bool)
        ensures
            r == self.spec_held(*frame),
    {
        match self {
            NodeHeld::Button(s) => frame.button(s),
            NodeHeld::Group(s, d) => frame.group_member(s, d),
            NodeHeld::SoftPull(s, t) => frame.trigger(s).0 >= t.0,
            NodeHeld::Virtual => false,
        }
    }

    /// This node's identity, stable across a binding swap on the same physical node.
    pub fn key(&self) -> (k: u32)
        ensures
            k == node_key(*self),
    {
        match self {
            NodeHeld::Button(s) => s.code() as u32,
            NodeHeld::Group(s, d) => {
                let di: u32 = match d {
                    Dir::Up => 0,
                    Dir::Down => 1,
                    Dir::Left => 2,
                    Dir::Right => 3,
                };
                proof {
                    InputSource::lemma_code_injective(*s, *s);
                }
                64 + (s.code() as u32) * 4 + di
            },
            NodeHeld::SoftPull(s, _) => {
                proof {
                    InputSource::lemma_code_injective(*s, *s);
                }
                256 + s.code() as u32
            },
            NodeHeld::Virtual => 512,
        }
    }
}

/// Layer/set changes a tick's firing commands requested, applied to the stack for the next tick.
/// Every entry carries its trigger node: holds latch to the node's held-state, and the persistent
/// mutations (set change, adds, removes) are deduplicated per node. The last set change wins;
/// adds and removes are lists of one-shot `(layer, node)` ops (two nodes adding the same layer
/// stay two entries); holds are a set of layers, one representative node each.
#[derive(Debug, Clone)]
pub struct LayerOps {
    pub set_change: Option<(SetId, NodeHeld)>,
    pub adds: Vec<(LayerId, NodeHeld)>,
    pub removes: Vec<(LayerId, NodeHeld)>,
    pub holds: IdMap<NodeHeld>,
}

/// The abstract content of a [`LayerOps`].
pub struct OpsView {
    pub set_change: Option<(SetId, NodeHeld)>,
    pub adds: Seq<(LayerId, NodeHeld)>,
    pub removes: Seq<(LayerId, NodeHeld)>,
    pub holds: Map<u32, NodeHeld>,
}

/// The ops after applying `a` (fired by `node`) to `ops`.
pub open spec fn apply_op(ops: OpsView, a: CompiledAction, node: NodeHeld) -> OpsView {
    match a {
        CompiledAction::ChangeActionSet(s) => OpsView { set_change: Some((s, node)), ..ops },
        CompiledAction::AddLayer(l) => OpsView { adds: ops.adds.push((l, node)), ..ops },
        CompiledAction::RemoveLayer(l) => OpsView { removes: ops.removes.push((l, node)), ..ops },
        CompiledAction::HoldLayer(l) => OpsView { holds: ops.holds.insert(l.0 as u32, node), ..ops },
        _ => ops,
    }
}

/// A persistent layer/set change (as opposed to a hold, which lasts while its node is held).
pub open spec fn persistent_op(a: CompiledAction) -> bool {
    a is ChangeActionSet || a is AddLayer || a is RemoveLayer
}

/// The ops after applying `a` from a command whose output is on: a persistent change is taken
/// only on the output's rising edge.
pub open spec fn apply_op_edge(ops: OpsView, a: CompiledAction, node: NodeHeld, rising: bool) -> OpsView {
    if persistent_op(a) && !rising {
        ops
    } else {
        apply_op(ops, a, node)
    }
}

/// The ops after applying each of `acts` in order (from a command whose output is on, `rising`
/// when it just came on).
pub open spec fn apply_ops(ops: OpsView, acts: Seq<CompiledAction>, node: NodeHeld, rising: bool) -> OpsView
    decreases acts.len(),
{
    if acts.len() == 0 {
        ops
    } else {
        apply_op_edge(apply_ops(ops, acts.drop_last(), node, rising), acts.last(), node, rising)
    }
}

/// A command whose output stays on from one tick to the next requests no set change, layer add
/// or layer remove again: persistent changes fire once per press. Its holds are still requested.
pub proof fn law_held_output_repeats_no_persistent_change(
    ops: OpsView,
    acts: Seq<CompiledAction>,
    node: NodeHeld,
)
    ensures
        apply_ops(ops, acts, node, false).set_change == ops.set_change,
        apply_ops(ops, acts, node, false).adds == ops.adds,
        apply_ops(ops, acts, node, false).removes == ops.removes,
    decreases acts.len(),
{
    if acts.len() > 0 {
        law_held_output_repeats_no_persistent_change(ops, acts.drop_last(), node);
    }
}

impl LayerOps {
    pub open spec fn view(self) -> OpsView {
        OpsView {
            set_change: self.set_change,
            adds: self.adds@,
            removes: self.removes@,
            holds: self.holds.view_map(),
        }
    }

    pub open spec fn wf(self) -> bool {
        self.holds.wf()
    }

    /// No changes requested.
    pub fn new() -> (ops: LayerOps)
        ensures
            ops.wf(),
            ops.view().set_change.is_none(),
            ops.view().adds.len() == 0,
            ops.view().removes.len() == 0,
            ops.view().holds == Map::<u32, NodeHeld>::empty(),
    {
        LayerOps { set_change: None, adds: Vec::new(), removes: Vec::new(), holds: IdMap::new() }
    }

    /// Record a layer/set action fired by `node`.
    pub fn apply(&mut self, a: &CompiledAction, node: &NodeHeld)
        requires
            old(self).wf(),
        ensures
            final(self).wf(),
            final(self).view() == apply_op(old(self).view(), *a, *node),
    {
        match a {
            CompiledAction::ChangeActionSet(s) => {
                self.set_change = Some((*s, *node));
            },
            CompiledAction::AddLayer(l) => {
                self.adds.push((*l, *node));
            },
            CompiledAction::RemoveLayer(l) => {
                self.removes.push((*l, *node));
            },
            CompiledAction::HoldLayer(l) => {
                self.holds.insert(l.0 as u32, *node);
            },
            _ => {},
        }
    }
}

/// Whether `node`'s persistent op applies: the node is not armed from an earlier tick of the same
/// press.
pub open spec fn fires(armed: Map<u32, NodeHeld>, node: NodeHeld) -> bool {
    !armed.contains_key(node_key(node))
}

/// Some entry of `list` on layer `l` comes from a node that fires.
pub open spec fn fired_on(list: Seq<(LayerId, NodeHeld)>, armed: Map<u32, NodeHeld>, l: u32) -> bool {
    exists|i: int| 0 <= i < list.len() && list[i].0.0 as u32 == l && fires(armed, #[trigger] list[i].1)
}

/// The requested set change applies.
pub open spec fn set_change_fires(ops: OpsView, armed: Map<u32, NodeHeld>) -> bool {
    ops.set_change is Some && fires(armed, ops.set_change.unwrap().1)
}

/// The persistent layers after a tick's ops: a firing set change clears them; otherwise firing
/// removes drop their layer and then firing adds insert theirs.
pub open spec fn next_persistent(p: Set<u32>, ops: OpsView, armed: Map<u32, NodeHeld>) -> Set<u32> {
    if set_change_fires(ops, armed) {
        Set::empty()
    } else {
        p.filter(|l: u32| !fired_on(ops.removes, armed, l)).union(
            Set::new(|l: u32| fired_on(ops.adds, armed, l)),
        )
    }
}

/// `m` restricted to the entries whose node is held in `frame`.
pub open spec fn still_held(m: Map<u32, NodeHeld>, frame: LogicalFrame) -> Map<u32, NodeHeld> {
    Map::new(|k: u32| m.contains_key(k) && m[k].spec_held(frame), |k: u32| m[k])
}

/// The hold-layers after a tick's ops: a firing set change clears them; otherwise a hold persists
/// while its node stays held, and this tick's holds whose node is held refresh it.
pub open spec fn next_held(
    h: Map<u32, NodeHeld>,
    ops: OpsView,
    armed: Map<u32, NodeHeld>,
    frame: LogicalFrame,
) -> Map<u32, NodeHeld> {
    if set_change_fires(ops, armed) {
        Map::empty()
    } else {
        still_held(h, frame).union_prefer_right(still_held(ops.holds, frame))
    }
}

/// The nodes that requested a persistent op this tick, in order: the set change's, the adds',
/// then the removes'.
pub open spec fn requesting(ops: OpsView) -> Seq<NodeHeld> {
    (match ops.set_change {
        Some(sc) => seq![sc.1],
        None => Seq::empty(),
    }) + ops.adds.map_values(|e: (LayerId, NodeHeld)| e.1) + ops.removes.map_values(
        |e: (LayerId, NodeHeld)| e.1,
    )
}

/// `m` with each held node of `nodes` armed under its key, in order.
pub open spec fn arm_all(m: Map<u32, NodeHeld>, nodes: Seq<NodeHeld>, frame: LogicalFrame) -> Map<
    u32,
    NodeHeld,
>
    decreases nodes.len(),
{
    if nodes.len() == 0 {
        m
    } else {
        let m1 = arm_all(m, nodes.drop_last(), frame);
        if nodes.last().spec_held(frame) {
            m1.insert(node_key(nodes.last()), nodes.last())
        } else {
            m1
        }
    }
}

/// The armed nodes after a tick: the armed ones still held, plus every held node that requested a
/// persistent op (applied or deduplicated away).
pub open spec fn next_armed(armed: Map<u32, NodeHeld>, ops: OpsView, frame: LogicalFrame) -> Map<
    u32,
    NodeHeld,
> {
    arm_all(still_held(armed, frame), requesting(ops), frame)
}

/// The action set after a tick's ops.
pub open spec fn next_set(set: SetId, ops: OpsView, armed: Map<u32, NodeHeld>) -> SetId {
    if set_change_fires(ops, armed) {
        ops.set_change.unwrap().0
    } else {
        set
    }
}

/// `layers` is the declared-order list of the layers in `p` ∪ `h`: strictly increasing, with
/// exactly those members.
pub open spec fn layers_of(layers: Seq<LayerId>, p: Set<u32>, h: Map<u32, NodeHeld>) -> bool {
    &&& forall|i: int, j: int| 0 <= i < j < layers.len() ==> #[trigger] layers[i].0 < #[trigger] layers[j].0
    &&& forall|l: LayerId| #[trigger] layers.contains(l) == (p.contains(l.0 as u32) || h.contains_key(l.0 as u32))
}

/// Drop the layers a firing remove names.
pub fn apply_removes(p: &mut IdMap<()>, removes: &Vec<(LayerId, NodeHeld)>, armed: &IdMap<NodeHeld>)
    requires
        old(p).wf(),
        armed.wf(),
    ensures
        final(p).wf(),
        final(p).view_map().dom() == old(p).view_map().dom().filter(
            |l: u32| !fired_on(removes@, armed.view_map(), l),
        ),
{
    let ghost p0 = p.view_map().dom();
    let mut i: usize = 0;
    while i < removes.len()
        invariant
            0 <= i <= removes@.len(),
            p.wf(),
            armed.wf(),
            p.view_map().dom() == p0.filter(|l: u32| !fired_on(removes@.take(i as int), armed.view_map(), l)),
        decreases removes.len() - i,
    {
        let (l, node) = removes[i];
        let ghost before = p.view_map().dom();
        if !armed.contains_key(node.key()) {
            p.remove(l.0 as u32);
        }
        proof {
            let t0 = removes@.take(i as int);
            let t1 = removes@.take(i + 1);
            assert forall|q: u32| #[trigger] fired_on(t1, armed.view_map(), q) == (fired_on(t0, armed.view_map(), q)
                || (l.0 as u32 == q && fires(armed.view_map(), node))) by {
                if fired_on(t1, armed.view_map(), q) {
                    let k = choose|k: int| 0 <= k < t1.len() && t1[k].0.0 as u32 == q && fires(armed.view_map(), #[trigger] t1[k].1);
                    if k < i {
                        assert(t0[k] == t1[k]);
                    }
                }
                if fired_on(t0, armed.view_map(), q) {
                    let k = choose|k: int| 0 <= k < t0.len() && t0[k].0.0 as u32 == q && fires(armed.view_map(), #[trigger] t0[k].1);
                    assert(t1[k] == t0[k]);
                }
                if l.0 as u32 == q && fires(armed.view_map(), node) {
                    assert(t1[i as int] == (l, node));
                }
            }
            assert(p.view_map().dom() =~= p0.filter(|l: u32| !fired_on(t1, armed.view_map(), l)));
        }
        i += 1;
    }
    assert(removes@.take(removes@.len() as int) =~= removes@);
}

/// Insert the layers a firing add names.
pub fn apply_adds(p: &mut IdMap<()>, adds: &Vec<(LayerId, NodeHeld)>, armed: &IdMap<NodeHeld>)
    requires
        old(p).wf(),
        armed.wf(),
    ensures
        final(p).wf(),
        final(p).view_map().dom() == old(p).view_map().dom().union(
            Set::new(|l: u32| fired_on(adds@, armed.view_map(), l)),
        ),
{
    let ghost p0 = p.view_map().dom();
    let mut i: usize = 0;
    while i < adds.len()
        invariant
            0 <= i <= adds@.len(),
            p.wf(),
            armed.wf(),
            p.view_map().dom() == p0.union(Set::new(|l: u32| fired_on(adds@.take(i as int), armed.view_map(), l))),
        decreases adds.len() - i,
    {
        let (l, node) = adds[i];
        if !armed.contains_key(node.key()) {
            p.insert(l.0 as u32, ());
        }
        proof {
            let t0 = adds@.take(i as int);
            let t1 = adds@.take(i + 1);
            assert forall|q: u32| #[trigger] fired_on(t1, armed.view_map(), q) == (fired_on(t0, armed.view_map(), q)
                || (l.0 as u32 == q && fires(armed.view_map(), node))) by {
                if fired_on(t1, armed.view_map(), q) {
                    let k = choose|k: int| 0 <= k < t1.len() && t1[k].0.0 as u32 == q && fires(armed.view_map(), #[trigger] t1[k].1);
                    if k < i {
                        assert(t0[k] == t1[k]);
                    }
                }
                if fired_on(t0, armed.view_map(), q) {
                    let k = choose|k: int| 0 <= k < t0.len() && t0[k].0.0 as u32 == q && fires(armed.view_map(), #[trigger] t0[k].1);
                    assert(t1[k] == t0[k]);
                }
                if l.0 as u32 == q && fires(armed.view_map(), node) {
                    assert(t1[i as int] == (l, node));
                }
            }
            assert(p.view_map().dom() =~= p0.union(Set::new(|l: u32| fired_on(t1, armed.view_map(), l))));
        }
        i += 1;
    }
    assert(adds@.take(adds@.len() as int) =~= adds@);
}

/// Copy into `into` the entries of `from` whose node is held in `frame` (later entries override).
pub fn keep_held(into: &mut IdMap<NodeHeld>, from: &IdMap<NodeHeld>, frame: &LogicalFrame)
    requires
        old(into).wf(),
        from.wf(),
    ensures
        final(into).wf(),
        final(into).view_map() == old(into).view_map().union_prefer_right(still_held(from.view_map(), *frame)),
{
    let ghost m0 = into.view_map();
    proof {
        from.lemma_wf();
    }
    let mut i: usize = 0;
    while i < from.len()
        invariant
            0 <= i <= from.entries().len(),
            into.wf(),
            from.wf(),
            increasing_keys(from.entries()),
            forall|k: u32| #[trigger] from.view_map().contains_key(k) == exists|j: int|
                0 <= j < from.entries().len() && from.entries()[j].0 == k,
            forall|j: int| 0 <= j < from.entries().len() ==> #[trigger] from.view_map()[from.entries()[j].0]
                == from.entries()[j].1,
            into.view_map() == m0.union_prefer_right(
                Map::new(
                    |k: u32| exists|j: int| 0 <= j < i && from.entries()[j].0 == k && from.entries()[j].1.spec_held(*frame),
                    |k: u32| from.view_map()[k],
                ),
            ),
        decreases from.entries().len() - i,
    {
        let (k, node) = from.at(i);
        if node.held(frame) {
            into.insert(k, node);
        }
        proof {
            let e = from.entries();
            let before = Map::new(
                |q: u32| exists|j: int| 0 <= j < i && e[j].0 == q && e[j].1.spec_held(*frame),
                |q: u32| from.view_map()[q],
            );
            let after = Map::new(
                |q: u32| exists|j: int| 0 <= j < i + 1 && e[j].0 == q && e[j].1.spec_held(*frame),
                |q: u32| from.view_map()[q],
            );
            assert forall|q: u32| #[trigger] after.contains_key(q) == (before.contains_key(q) || (q == k
                && node.spec_held(*frame))) by {
                if after.contains_key(q) {
                    let j = choose|j: int| 0 <= j < i + 1 && e[j].0 == q && e[j].1.spec_held(*frame);
                    if j < i {
                        assert(before.contains_key(q));
                    }
                }
                if q == k && node.spec_held(*frame) {
                    assert(e[i as int].0 == q);
                }
            }
            assert(into.view_map() =~= m0.union_prefer_right(after));
        }
        i += 1;
    }
    proof {
        let e = from.entries();
        let fin = Map::new(
            |q: u32| exists|j: int| 0 <= j < e.len() && e[j].0 == q && e[j].1.spec_held(*frame),
            |q: u32| from.view_map()[q],
        );
        assert forall|q: u32| #[trigger] fin.contains_key(q) == still_held(from.view_map(), *frame).contains_key(q) by {
            if fin.contains_key(q) {
                let j = choose|j: int| 0 <= j < e.len() && e[j].0 == q && e[j].1.spec_held(*frame);
                assert(from.view_map()[e[j].0] == e[j].1);
            }
            if still_held(from.view_map(), *frame).contains_key(q) {
                let j = choose|j: int| 0 <= j < e.len() && e[j].0 == q;
                assert(from.view_map()[e[j].0] == e[j].1);
            }
        }
        assert(fin =~= still_held(from.view_map(), *frame));
    }
}

/// Arm each of `nodes` that is held in `frame`, under its key, in order.
pub fn arm_nodes(m: &mut IdMap<NodeHeld>, nodes: &Vec<NodeHeld>, frame: &LogicalFrame)
    requires
        old(m).wf(),
    ensures
        final(m).wf(),
        final(m).view_map() == arm_all(old(m).view_map(), nodes@, *frame),
{
    let ghost m0 = m.view_map();
    let mut i: usize = 0;
    while i < nodes.len()
        invariant
            0 <= i <= nodes@.len(),
            m.wf(),
            m.view_map() == arm_all(m0, nodes@.take(i as int), *frame),
        decreases nodes.len() - i,
    {
        let node = nodes[i];
        if node.held(frame) {
            m.insert(node.key(), node);
        }
        assert(nodes@.take(i + 1).drop_last() =~= nodes@.take(i as int));
        i += 1;
    }
    assert(nodes@.take(nodes@.len() as int) =~= nodes@);
}

/// The nodes that requested a persistent op, in order.
pub fn requesting_nodes(ops: &LayerOps) -> (r: Vec<NodeHeld>)
    ensures
        r@ == requesting(ops.view()),
{
    let mut r: Vec<NodeHeld> = Vec::new();
    if let Some((_, n)) = ops.set_change {
        r.push(n);
    }
    let ghost r0 = r@;
    let mut i: usize = 0;
    while i < ops.adds.len()
        invariant
            0 <= i <= ops.adds@.len(),
            r@ == r0 + ops.adds@.take(i as int).map_values(|e: (LayerId, NodeHeld)| e.1),
        decreases ops.adds.len() - i,
    {
        r.push(ops.adds[i].1);
        assert(ops.adds@.take(i + 1).map_values(|e: (LayerId, NodeHeld)| e.1) =~= ops.adds@.take(
            i as int,
        ).map_values(|e: (LayerId, NodeHeld)| e.1).push(ops.adds@[i as int].1));
        i += 1;
    }
    assert(ops.adds@.take(ops.adds@.len() as int) =~= ops.adds@);
    let ghost r1 = r@;
    let mut i: usize = 0;
    while i < ops.removes.len()
        invariant
            0 <= i <= ops.removes@.len(),
            r@ == r1 + ops.removes@.take(i as int).map_values(|e: (LayerId, NodeHeld)| e.1),
        decreases ops.removes.len() - i,
    {
        r.push(ops.removes[i].1);
        assert(ops.removes@.take(i + 1).map_values(|e: (LayerId, NodeHeld)| e.1) =~= ops.removes@.take(
            i as int,
        ).map_values(|e: (LayerId, NodeHeld)| e.1).push(ops.removes@[i as int].1));
        i += 1;
    }
    assert(ops.removes@.take(ops.removes@.len() as int) =~= ops.removes@);
    assert(r@ =~= requesting(ops.view()));
    r
}

/// The declared-order list of the layers in `p` ∪ `h` (every id below 65536).
pub fn layers_in(p: &IdMap<()>, h: &IdMap<NodeHeld>) -> (r: Vec<LayerId>)
    requires
        p.wf(),
        h.wf(),
        forall|k: u32| p.view_map().contains_key(k) ==> k < 65536,
        forall|k: u32| h.view_map().contains_key(k) ==> k < 65536,
    ensures
        layers_of(r@, p.view_map().dom(), h.view_map()),
{
    let mut u: IdMap<()> = IdMap::new();
    let mut i: usize = 0;
    proof {
        p.lemma_wf();
        h.lemma_wf();
    }
    while i < p.len()
        invariant
            0 <= i <= p.entries().len(),
            u.wf(),
            p.wf(),
            forall|k: u32| #[trigger] p.view_map().contains_key(k) == exists|j: int|
                0 <= j < p.entries().len() && p.entries()[j].0 == k,
            forall|k: u32| #[trigger] u.view_map().contains_key(k) == exists|j: int|
                0 <= j < i && p.entries()[j].0 == k,
        decreases p.entries().len() - i,
    {
        let (k, _) = p.at(i);
        u.insert(k, ());
        proof {
            assert forall|q: u32| #[trigger] u.view_map().contains_key(q) == exists|j: int|
                0 <= j < i + 1 && p.entries()[j].0 == q by {
                if q == k {
                    assert(p.entries()[i as int].0 == q);
                }
            }
        }
        i += 1;
    }
    let mut i: usize = 0;
    while i < h.len()
        invariant
            0 <= i <= h.entries().len(),
            u.wf(),
            h.wf(),
            forall|k: u32| #[trigger] h.view_map().contains_key(k) == exists|j: int|
                0 <= j < h.entries().len() && h.entries()[j].0 == k,
            forall|k: u32| #[trigger] u.view_map().contains_key(k) == (p.view_map().contains_key(k)
                || exists|j: int| 0 <= j < i && h.entries()[j].0 == k),
        decreases h.entries().len() - i,
    {
        let (k, _) = h.at(i);
        u.insert(k, ());
        proof {
            assert forall|q: u32| #[trigger] u.view_map().contains_key(q) == (p.view_map().contains_key(q)
                || exists|j: int| 0 <= j < i + 1 && h.entries()[j].0 == q) by {
                if q == k {
                    assert(h.entries()[i as int].0 == q);
                }
            }
        }
        i += 1;
    }
    proof {
        u.lemma_wf();
    }
    let mut r: Vec<LayerId> = Vec::new();
    let mut i: usize = 0;
    while i < u.len()
        invariant
            0 <= i <= u.entries().len(),
            u.wf(),
            increasing_keys(u.entries()),
            forall|k: u32| #[trigger] u.view_map().contains_key(k) == exists|j: int|
                0 <= j < u.entries().len() && u.entries()[j].0 == k,
            forall|k: u32| #[trigger] u.view_map().contains_key(k) == (p.view_map().contains_key(k)
                || h.view_map().contains_key(k)),
            forall|k: u32| p.view_map().contains_key(k) ==> k < 65536,
            forall|k: u32| h.view_map().contains_key(k) ==> k < 65536,
            r@.len() == i,
            forall|j: int| 0 <= j < i ==> (#[trigger] r@[j]).0 as u32 == u.entries()[j].0,
        decreases u.entries().len() - i,
    {
        let (k, _) = u.at(i);
        proof {
            assert(u.view_map().contains_key(u.entries()[i as int].0));
        }
        r.push(LayerId(k as u16));
        i += 1;
    }
    proof {
        let e = u.entries();
        assert forall|a: int, b: int| 0 <= a < b < r@.len() implies #[trigger] r@[a].0 < #[trigger] r@[b].0 by {
            assert(e[a].0 < e[b].0);
        }
        assert forall|l: LayerId| #[trigger] r@.contains(l) == (p.view_map().dom().contains(l.0 as u32)
            || h.view_map().contains_key(l.0 as u32)) by {
            if r@.contains(l) {
                let j = choose|j: int| 0 <= j < r@.len() && r@[j] == l;
                assert(u.view_map().contains_key(e[j].0));
            }
            if p.view_map().dom().contains(l.0 as u32) || h.view_map().contains_key(l.0 as u32) {
                assert(u.view_map().contains_key(l.0 as u32));
                let j = choose|j: int| 0 <= j < e.len() && e[j].0 == l.0 as u32;
                assert(r@[j].0 as u32 == l.0 as u32);
                assert(r@[j] == l);
            }
        }
    }
    r
}

} // verus!
