//! Binding evaluation — a source's resolved binding → the button-like nodes it exposes, each run
//! through [`eval_commands`] against its own activator slot.
//!
//! A physical button is one node; a button group in button-pad mode is four (its members); a
//! trigger is one (its soft-pull button, held while the pull reaches the threshold); a joystick is
//! one (its outer ring) and a directional pad five (four directions, then the outer ring). The
//! joystick and dpad nodes are read off the analog position, which the analog side evaluates and
//! hands in as [`VirtualButtons`]. The mouse behaviors expose no node.

use vstd::prelude::*;

use crate::logical::LogicalFrame;
use crate::mapper::activator::{grown, ActView, SlotView, SourceActivators};
use crate::mapper::command::{eval_commands, fired_upto, haptics_upto, levels_add, node_tick, ops_upto, stepped_slot};
use crate::mapper::layers::{LayerOps, NodeHeld, OpsView};
use crate::mapper::reconcile::DesiredLevels;
use crate::mapper::{HapticReq, Tick};
use crate::program::{AnalogRef, CompiledAction, CompiledBinding, CompiledCommand};
use crate::vocab::{Dir, InputSource, Side};

verus! {

/// The held-state of an analog binding's virtual buttons this tick (joystick outer ring; dpad
/// directions and outer ring), as the analog side read them off the source's position.
#[derive(Debug, Clone, Copy, PartialEq, Eq, Structural)]
pub struct VirtualButtons {
    pub up: bool,
    pub down: bool,
    pub left: bool,
    pub right: bool,
    pub ring: bool,
}

impl VirtualButtons {
    /// Every virtual button released.
    pub fn released() -> (v: VirtualButtons)
        ensures
            !v.up && !v.down && !v.left && !v.right && !v.ring,
    {
        VirtualButtons { up: false, down: false, left: false, right: false, ring: false }
    }
}

/// One button-like node of a binding: its commands, its level this tick, and how to re-derive
/// that level later.
pub struct NodeIn {
    pub commands: Seq<CompiledCommand>,
    pub held: bool,
    pub node: NodeHeld,
}

/// The nodes a binding exposes for `source`, in slot order.
pub open spec fn binding_inputs(
    b: CompiledBinding,
    source: InputSource,
    frame: LogicalFrame,
    v: VirtualButtons,
) -> Seq<NodeIn> {
    match b {
        CompiledBinding::Button { commands } => seq![
            NodeIn {
                commands: commands@,
                held: frame.spec_button(source),
                node: NodeHeld::Button(source),
            },
        ],
        CompiledBinding::ButtonPad { up, down, left, right } => seq![
            NodeIn {
                commands: up@,
                held: frame.spec_group_member(source, Dir::Up),
                node: NodeHeld::Group(source, Dir::Up),
            },
            NodeIn {
                commands: down@,
                held: frame.spec_group_member(source, Dir::Down),
                node: NodeHeld::Group(source, Dir::Down),
            },
            NodeIn {
                commands: left@,
                held: frame.spec_group_member(source, Dir::Left),
                node: NodeHeld::Group(source, Dir::Left),
            },
            NodeIn {
                commands: right@,
                held: frame.spec_group_member(source, Dir::Right),
                node: NodeHeld::Group(source, Dir::Right),
            },
        ],
        CompiledBinding::Joystick { outer_ring, .. } => seq![
            NodeIn { commands: outer_ring@, held: v.ring, node: NodeHeld::Virtual },
        ],
        CompiledBinding::DirectionalPad { up, down, left, right, outer_ring, .. } => seq![
            NodeIn { commands: up@, held: v.up, node: NodeHeld::Virtual },
            NodeIn { commands: down@, held: v.down, node: NodeHeld::Virtual },
            NodeIn { commands: left@, held: v.left, node: NodeHeld::Virtual },
            NodeIn { commands: right@, held: v.right, node: NodeHeld::Virtual },
            NodeIn { commands: outer_ring@, held: v.ring, node: NodeHeld::Virtual },
        ],
        CompiledBinding::Trigger { soft_pull_at, soft_pull, .. } => seq![
            NodeIn {
                commands: soft_pull@,
                held: frame.spec_trigger(source).0 >= soft_pull_at.0,
                node: NodeHeld::SoftPull(source, soft_pull_at),
            },
        ],
        _ => Seq::empty(),
    }
}

/// What evaluating nodes did: the slots afterwards, the actions fired (in order), the layer ops,
/// and the haptic pulses.
pub struct Step {
    pub slots: Seq<SlotView>,
    pub fired: Seq<CompiledAction>,
    pub ops: OpsView,
    pub haptics: Seq<HapticReq>,
}

/// Evaluating nodes `0..k` in order, node `j` on slot `j`.
pub open spec fn nodes_step(
    nodes: Seq<NodeIn>,
    slots: Seq<SlotView>,
    side: Side,
    now: u64,
    ops: OpsView,
    k: int,
) -> Step
    decreases k,
{
    if k <= 0 {
        Step { slots, fired: Seq::empty(), ops, haptics: Seq::empty() }
    } else {
        let p = nodes_step(nodes, slots, side, now, ops, k - 1);
        let n = nodes[k - 1];
        let slot = p.slots[k - 1];
        let nt = node_tick(slot, n.held, now);
        let f = fired_upto(n.commands, slot.commands, nt, n.commands.len() as int);
        Step {
            slots: p.slots.update(k - 1, stepped_slot(n.commands, slot, n.held, now)),
            fired: p.fired + f,
            ops: ops_upto(n.commands, slot.commands, nt, n.node, p.ops, n.commands.len() as int),
            haptics: p.haptics + haptics_upto(
                n.commands,
                slot.commands,
                nt,
                side,
                n.commands.len() as int,
            ),
        }
    }
}

/// Evaluating `b` for `source` on the slots `slots` (grown fresh to the node count).
pub open spec fn binding_step(
    b: CompiledBinding,
    source: InputSource,
    frame: LogicalFrame,
    v: VirtualButtons,
    slots: Seq<SlotView>,
    now: u64,
    ops: OpsView,
) -> Step {
    let nodes = binding_inputs(b, source, frame, v);
    nodes_step(nodes, grown(slots, nodes.len() as int), source.spec_side(), now, ops, nodes.len() as int)
}

pub proof fn lemma_nodes_step_len(nodes: Seq<NodeIn>, slots: Seq<SlotView>, side: Side, now: u64, ops: OpsView, k: int)
    requires
        k <= slots.len(),
    ensures
        nodes_step(nodes, slots, side, now, ops, k).slots.len() == slots.len(),
    decreases k,
{
    if k > 0 {
        lemma_nodes_step_len(nodes, slots, side, now, ops, k - 1);
    }
}

/// The nodes `b` exposes, with their commands borrowed from the binding.
fn node_inputs<'a>(
    b: &'a CompiledBinding,
    source: &InputSource,
    frame: &LogicalFrame,
    v: &VirtualButtons,
) -> (r: Vec<(&'a Vec<CompiledCommand>, bool, NodeHeld)>)
    ensures
        r@.len() == binding_inputs(*b, *source, *frame, *v).len(),
        r@.len() <= 5,
        forall|j: int|
            0 <= j < r@.len() ==> (#[trigger] r@[j]).0@ == binding_inputs(
                *b,
                *source,
                *frame,
                *v,
            )[j].commands && r@[j].1 == binding_inputs(*b, *source, *frame, *v)[j].held
                && r@[j].2 == binding_inputs(*b, *source, *frame, *v)[j].node,
{
    let s = *source;
    match b {
        CompiledBinding::Button { commands } => vec![(commands, frame.button(source), NodeHeld::Button(s))],
        CompiledBinding::ButtonPad { up, down, left, right } => vec![
            (up, frame.group_member(source, &Dir::Up), NodeHeld::Group(s, Dir::Up)),
            (down, frame.group_member(source, &Dir::Down), NodeHeld::Group(s, Dir::Down)),
            (left, frame.group_member(source, &Dir::Left), NodeHeld::Group(s, Dir::Left)),
            (right, frame.group_member(source, &Dir::Right), NodeHeld::Group(s, Dir::Right)),
        ],
        CompiledBinding::Joystick { outer_ring, .. } => vec![(outer_ring, v.ring, NodeHeld::Virtual)],
        CompiledBinding::DirectionalPad { up, down, left, right, outer_ring, .. } => vec![
            (up, v.up, NodeHeld::Virtual),
            (down, v.down, NodeHeld::Virtual),
            (left, v.left, NodeHeld::Virtual),
            (right, v.right, NodeHeld::Virtual),
            (outer_ring, v.ring, NodeHeld::Virtual),
        ],
        CompiledBinding::Trigger { soft_pull_at, soft_pull, .. } => {
            let pull = frame.trigger(source);
            vec![(soft_pull, pull.0 >= soft_pull_at.0, NodeHeld::SoftPull(s, *soft_pull_at))]
        },
        _ => Vec::new(),
    }
}

/// Evaluate one resolved binding: run each node it exposes through its commands on its own slot,
/// collecting output levels into `desired`, layer/set changes into `ops` and command haptics
/// (on the source's side) into `haptics`.
pub fn eval_binding(
    binding: &CompiledBinding,
    source: &InputSource,
    frame: &LogicalFrame,
    virt: &VirtualButtons,
    slots: &mut SourceActivators,
    now: &Tick,
    desired: &mut DesiredLevels,
    ops: &mut LayerOps,
    haptics: &mut Vec<HapticReq>,
)
    requires
        now.0 <= u64::MAX - crate::mapper::command::TAP_MS,
        old(desired).wf(),
        old(ops).wf(),
    ensures
        final(desired).wf(),
        final(ops).wf(),
        ({
            let st = binding_step(
                *binding,
                *source,
                *frame,
                *virt,
                old(slots).view().slots,
                now.0,
                old(ops).view(),
            );
            &&& final(slots).view() == (ActView { key: old(slots).key, slots: st.slots })
            &&& levels_add(old(desired).levels(), final(desired).levels(), st.fired)
            &&& final(ops).view() == st.ops
            &&& final(haptics)@ == old(haptics)@ + st.haptics
        }),
{
    let nodes = node_inputs(binding, source, frame, virt);
    let ghost spec_nodes = binding_inputs(*binding, *source, *frame, *virt);
    let side = source.side();
    let n = nodes.len();
    slots.ensure(n);
    let ghost g = grown(old(slots).view().slots, n as int);
    assert(slots.view().slots =~= g) by {
        assert forall|j: int| 0 <= j < slots.slots@.len() implies #[trigger] slots.view().slots[j]
            == g[j] by {
            if j >= old(slots).slots@.len() {
                assert(slots.slots@[j].view().commands =~= Seq::<crate::mapper::activator::CmdState>::empty());
            }
        }
    }
    let ghost d0 = desired.levels();
    let ghost ops0 = ops.view();
    let ghost h0 = haptics@;
    let mut k: usize = 0;
    while k < n
        invariant
            0 <= k <= n,
            n == nodes@.len(),
            n <= 5,
            n == spec_nodes.len(),
            spec_nodes == binding_inputs(*binding, *source, *frame, *virt),
            forall|j: int|
                0 <= j < n ==> (#[trigger] nodes@[j]).0@ == spec_nodes[j].commands && nodes@[j].1
                    == spec_nodes[j].held && nodes@[j].2 == spec_nodes[j].node,
            side == source.spec_side(),
            g.len() >= n,
            now.0 <= u64::MAX - crate::mapper::command::TAP_MS,
            slots.key == old(slots).key,
            slots.view().slots == nodes_step(spec_nodes, g, side, now.0, ops0, k as int).slots,
            desired.wf(),
            ops.wf(),
            levels_add(d0, desired.levels(), nodes_step(spec_nodes, g, side, now.0, ops0, k as int).fired),
            ops.view() == nodes_step(spec_nodes, g, side, now.0, ops0, k as int).ops,
            haptics@ == h0 + nodes_step(spec_nodes, g, side, now.0, ops0, k as int).haptics,
        decreases n - k,
    {
        let ghost p = nodes_step(spec_nodes, g, side, now.0, ops0, k as int);
        let ghost dprev = desired.levels();
        proof {
            lemma_nodes_step_len(spec_nodes, g, side, now.0, ops0, k as int);
        }
        let entry = &nodes[k];
        let slot = slots.slot(k);
        eval_commands(entry.0, entry.1, &entry.2, side, slot, now, desired, ops, haptics);
        proof {
            let nd = spec_nodes[k as int];
            let slot0 = p.slots[k as int];
            let nt = node_tick(slot0, nd.held, now.0);
            let f = fired_upto(nd.commands, slot0.commands, nt, nd.commands.len() as int);
            crate::mapper::command::lemma_levels_add_trans(d0, dprev, desired.levels(), p.fired, f);
            assert(grown(p.slots, k + 1) =~= p.slots);
            assert(slots.view().slots =~= nodes_step(spec_nodes, g, side, now.0, ops0, k + 1).slots);
            assert(haptics@ =~= h0 + nodes_step(spec_nodes, g, side, now.0, ops0, k + 1).haptics);
        }
        k += 1;
    }
}

/// Each virtual button of a directional pad drives its own commands: the up, down, left, right
/// and outer-ring commands run exactly while the analog side holds the up, down, left, right and
/// outer-ring buttons; a push to one side never runs another side's commands.
pub proof fn law_dpad_sides_drive_their_commands(
    settings: AnalogRef,
    up: Vec<CompiledCommand>,
    down: Vec<CompiledCommand>,
    left: Vec<CompiledCommand>,
    right: Vec<CompiledCommand>,
    outer_ring: Vec<CompiledCommand>,
    source: InputSource,
    frame: LogicalFrame,
    v: VirtualButtons,
)
    ensures
        ({
            let n = binding_inputs(
                CompiledBinding::DirectionalPad { settings, up, down, left, right, outer_ring },
                source,
                frame,
                v,
            );
            &&& n.len() == 5
            &&& n[0].commands == up@ && n[0].held == v.up
            &&& n[1].commands == down@ && n[1].held == v.down
            &&& n[2].commands == left@ && n[2].held == v.left
            &&& n[3].commands == right@ && n[3].held == v.right
            &&& n[4].commands == outer_ring@ && n[4].held == v.ring
        }),
{
}

/// A button pad's four member commands run while the matching member of the group is held: the
/// top member drives `up`, the bottom `down`, the left `left`, the right `right`.
pub proof fn law_button_pad_members_drive_their_commands(
    up: Vec<CompiledCommand>,
    down: Vec<CompiledCommand>,
    left: Vec<CompiledCommand>,
    right: Vec<CompiledCommand>,
    source: InputSource,
    frame: LogicalFrame,
    v: VirtualButtons,
)
    ensures
        ({
            let n = binding_inputs(CompiledBinding::ButtonPad { up, down, left, right }, source, frame, v);
            &&& n.len() == 4
            &&& n[0].commands == up@ && n[0].held == frame.spec_group_member(source, Dir::Up)
            &&& n[1].commands == down@ && n[1].held == frame.spec_group_member(source, Dir::Down)
            &&& n[2].commands == left@ && n[2].held == frame.spec_group_member(source, Dir::Left)
            &&& n[3].commands == right@ && n[3].held == frame.spec_group_member(source, Dir::Right)
        }),
{
}

} // verus!
