//! Compiling a profile ([`ConfigDoc`]) into the runtime [`Program`].
//!
//! Compiling resolves the set and layer names the actions refer to into ids — set names are
//! program-wide, layer names are scoped to the set being compiled, and a layer's id is its
//! declared position (its precedence) — and mirrors every binding into its runtime form,
//! keeping activators and settings verbatim. A reference that names no set or layer is an
//! error: every such reference gets an error diagnostic, and the profile does not compile.
//! When two sets (or two layers of a set) share a name, the later one is the one named.

use vstd::prelude::*;

use crate::profile::{Action, ActionSet, Command, ConfigDoc, Diagnostic, Layer, Severity, SourceBinding};
use crate::program::{
    CompiledAction, CompiledBinding, CompiledCommand, CompiledLayer, CompiledSet, LayerId, Program,
    ProgramMeta, Role, SetId, SourceMap,
};
use crate::vocab::InputSource;

verus! {

/// The last position of `names` holding `name`, if any.
pub open spec fn last_named(names: Seq<Seq<char>>, name: Seq<char>) -> Option<int>
    decreases names.len(),
{
    if names.len() == 0 {
        None
    } else if names.last() == name {
        Some(names.len() - 1)
    } else {
        last_named(names.drop_last(), name)
    }
}

/// The names of the action sets, in order.
pub open spec fn set_names(sets: Seq<ActionSet>) -> Seq<Seq<char>> {
    sets.map_values(|a: ActionSet| a.name@)
}

/// The names of a set's layers, in order.
pub open spec fn layer_names(layers: Seq<Layer>) -> Seq<Seq<char>> {
    layers.map_values(|l: Layer| l.name@)
}

/// The set id of position `i` (ids are 16 bits wide).
pub open spec fn set_id(i: int) -> SetId {
    SetId((i % 65536) as u16)
}

/// The layer id of position `i` (ids are 16 bits wide).
pub open spec fn layer_id(i: int) -> LayerId {
    LayerId((i % 65536) as u16)
}

/// `c` is `a` with its reference (if any) resolved against `sets` / `layers`.
pub open spec fn action_compiled(a: Action, c: CompiledAction, sets: Seq<Seq<char>>, layers: Seq<Seq<char>>) -> bool {
    match a {
        Action::Nothing => c == CompiledAction::Nothing,
        Action::Key(k) => c == CompiledAction::Key(k),
        Action::MouseButton(b) => c == CompiledAction::MouseButton(b),
        Action::GamepadButton(b) => c == CompiledAction::GamepadButton(b),
        Action::ChangeActionSet(n) => last_named(sets, n@) matches Some(i) && c
            == CompiledAction::ChangeActionSet(set_id(i)),
        Action::HoldLayer(n) => last_named(layers, n@) matches Some(i) && c == CompiledAction::HoldLayer(
            layer_id(i),
        ),
        Action::AddLayer(n) => last_named(layers, n@) matches Some(i) && c == CompiledAction::AddLayer(
            layer_id(i),
        ),
        Action::RemoveLayer(n) => last_named(layers, n@) matches Some(i) && c
            == CompiledAction::RemoveLayer(layer_id(i)),
    }
}

/// The reference `a` carries (if any) names an existing set / layer.
pub open spec fn action_resolves(a: Action, sets: Seq<Seq<char>>, layers: Seq<Seq<char>>) -> bool {
    match a {
        Action::ChangeActionSet(n) => last_named(sets, n@) is Some,
        Action::HoldLayer(n) => last_named(layers, n@) is Some,
        Action::AddLayer(n) => last_named(layers, n@) is Some,
        Action::RemoveLayer(n) => last_named(layers, n@) is Some,
        _ => true,
    }
}

pub open spec fn commands_resolve(cmds: Seq<Command>, sets: Seq<Seq<char>>, layers: Seq<Seq<char>>) -> bool {
    forall|i: int, j: int|
        0 <= i < cmds.len() && 0 <= j < cmds[i].actions@.len() ==> action_resolves(
            #[trigger] cmds[i].actions@[j],
            sets,
            layers,
        )
}

/// `out` is `src` with every action compiled; activators and settings are kept.
pub open spec fn commands_compiled(
    src: Seq<Command>,
    out: Seq<CompiledCommand>,
    sets: Seq<Seq<char>>,
    layers: Seq<Seq<char>>,
) -> bool {
    &&& src.len() == out.len()
    &&& forall|i: int|
        #![trigger out[i]]
        0 <= i < src.len() ==> {
            &&& out[i].activator == src[i].activator
            &&& out[i].settings == src[i].settings
            &&& out[i].actions@.len() == src[i].actions@.len()
            &&& forall|j: int|
                0 <= j < src[i].actions@.len() ==> action_compiled(
                    #[trigger] src[i].actions@[j],
                    out[i].actions@[j],
                    sets,
                    layers,
                )
        }
}

/// The command lists of a binding, in slot order.
pub open spec fn source_nodes(b: SourceBinding) -> Seq<Seq<Command>> {
    match b {
        SourceBinding::Button { commands } => seq![commands@],
        SourceBinding::ButtonPad { up, down, left, right } => seq![up@, down@, left@, right@],
        SourceBinding::Joystick { outer_ring, .. } => seq![outer_ring@],
        SourceBinding::DirectionalPad { up, down, left, right, outer_ring, .. } => seq![
            up@,
            down@,
            left@,
            right@,
            outer_ring@,
        ],
        SourceBinding::Trigger { soft_pull, .. } => seq![soft_pull@],
        _ => Seq::empty(),
    }
}

pub open spec fn binding_resolves(b: SourceBinding, sets: Seq<Seq<char>>, layers: Seq<Seq<char>>) -> bool {
    forall|k: int| 0 <= k < source_nodes(b).len() ==> commands_resolve(#[trigger] source_nodes(b)[k], sets, layers)
}

/// `c` is `b` in runtime form: the same kind and settings, each command list compiled.
pub open spec fn binding_compiled(
    b: SourceBinding,
    c: CompiledBinding,
    sets: Seq<Seq<char>>,
    layers: Seq<Seq<char>>,
) -> bool {
    match (b, c) {
        (SourceBinding::Button { commands: s }, CompiledBinding::Button { commands: o }) => commands_compiled(
            s@,
            o@,
            sets,
            layers,
        ),
        (
            SourceBinding::ButtonPad { up: su, down: sd, left: sl, right: sr },
            CompiledBinding::ButtonPad { up: ou, down: od, left: ol, right: or },
        ) => commands_compiled(su@, ou@, sets, layers) && commands_compiled(sd@, od@, sets, layers)
            && commands_compiled(sl@, ol@, sets, layers) && commands_compiled(sr@, or@, sets, layers),
        (
            SourceBinding::Joystick { settings: ss, outer_ring: s },
            CompiledBinding::Joystick { settings: os, outer_ring: o },
        ) => ss == os && commands_compiled(s@, o@, sets, layers),
        (
            SourceBinding::DirectionalPad {
                settings: ss,
                up: su,
                down: sd,
                left: sl,
                right: sr,
                outer_ring: so,
            },
            CompiledBinding::DirectionalPad {
                settings: os,
                up: ou,
                down: od,
                left: ol,
                right: or,
                outer_ring: oo,
            },
        ) => ss == os && commands_compiled(su@, ou@, sets, layers) && commands_compiled(
            sd@,
            od@,
            sets,
            layers,
        ) && commands_compiled(sl@, ol@, sets, layers) && commands_compiled(sr@, or@, sets, layers)
            && commands_compiled(so@, oo@, sets, layers),
        (SourceBinding::AsMouse { settings: ss }, CompiledBinding::AsMouse { settings: os }) => ss == os,
        (
            SourceBinding::JoystickMouse { settings: ss },
            CompiledBinding::JoystickMouse { settings: os },
        ) => ss == os,
        (SourceBinding::GyroToMouse { settings: ss }, CompiledBinding::GyroToMouse { settings: os }) => ss
            == os,
        (
            SourceBinding::Trigger { settings: ss, soft_pull_at: st, soft_pull: s },
            CompiledBinding::Trigger { settings: os, soft_pull_at: ot, soft_pull: o },
        ) => ss == os && st == ot && commands_compiled(s@, o@, sets, layers),
        (SourceBinding::Unbound, CompiledBinding::Unbound) => true,
        _ => false,
    }
}

pub open spec fn bindings_resolve(
    src: SourceMap<SourceBinding>,
    sets: Seq<Seq<char>>,
    layers: Seq<Seq<char>>,
) -> bool {
    forall|i: int| 0 <= i < src.pairs().len() ==> binding_resolves(#[trigger] src.pairs()[i].1, sets, layers)
}

/// `out` binds exactly the sources `src` binds, each to its compiled binding.
pub open spec fn bindings_compiled(
    src: SourceMap<SourceBinding>,
    out: SourceMap<CompiledBinding>,
    sets: Seq<Seq<char>>,
    layers: Seq<Seq<char>>,
) -> bool {
    forall|k: InputSource|
        #![trigger src.lookup(k)]
        #![trigger out.lookup(k)]
        (src.lookup(k) is Some <==> out.lookup(k) is Some) && (src.lookup(k) is Some ==> binding_compiled(
            src.lookup(k).unwrap(),
            out.lookup(k).unwrap(),
            sets,
            layers,
        ))
}

/// Every reference in the set (base bindings and layers) resolves.
pub open spec fn set_resolves(set: ActionSet, sets: Seq<Seq<char>>) -> bool {
    let layers = layer_names(set.layers@);
    &&& bindings_resolve(set.bindings, sets, layers)
    &&& forall|j: int| 0 <= j < set.layers@.len() ==> bindings_resolve(#[trigger] set.layers@[j].bindings, sets, layers)
}

/// Every reference in the profile resolves.
pub open spec fn doc_resolves(doc: ConfigDoc) -> bool {
    forall|i: int| 0 <= i < doc.action_sets@.len() ==> set_resolves(#[trigger] doc.action_sets@[i], set_names(doc.action_sets@))
}

/// `out` is `set` compiled.
pub open spec fn set_compiled(set: ActionSet, out: CompiledSet, sets: Seq<Seq<char>>) -> bool {
    let layers = layer_names(set.layers@);
    &&& out.name@ == set.name@
    &&& crate::program::sorted_sources(out.base.pairs())
    &&& bindings_compiled(set.bindings, out.base, sets, layers)
    &&& out.layers@.len() == set.layers@.len()
    &&& forall|j: int|
        #![trigger out.layers@[j]]
        0 <= j < set.layers@.len() ==> out.layers@[j].name@ == set.layers@[j].name@
            && crate::program::sorted_sources(out.layers@[j].bindings.pairs()) && bindings_compiled(
            set.layers@[j].bindings,
            out.layers@[j].bindings,
            sets,
            layers,
        )
}

/// `p` is `doc` compiled: same name, tagged Main, starting on the first set, same rumble feel,
/// each set compiled.
pub open spec fn program_compiled(doc: ConfigDoc, p: Program) -> bool {
    &&& p.meta.name@ == doc.name@
    &&& p.meta.role == Role::Main
    &&& p.default_set == SetId(0)
    &&& p.rumble == doc.rumble
    &&& p.sets@.len() == doc.action_sets@.len()
    &&& forall|i: int|
        #![trigger p.sets@[i]]
        0 <= i < doc.action_sets@.len() ==> set_compiled(
            doc.action_sets@[i],
            p.sets@[i],
            set_names(doc.action_sets@),
        )
}

/// Name-resolution context for one action set: set names are program-wide, layer names are the
/// set's own.
pub struct Names {
    pub sets: Vec<String>,
    pub layers: Vec<String>,
}

impl Names {
    pub open spec fn set_view(self) -> Seq<Seq<char>> {
        self.sets@.map_values(|s: String| s@)
    }

    pub open spec fn layer_view(self) -> Seq<Seq<char>> {
        self.layers@.map_values(|s: String| s@)
    }
}

/// The last position of `names` holding `name`.
fn find_last(names: &Vec<String>, name: &String) -> (r: Option<usize>)
    ensures
        r matches Some(i) ==> last_named(names@.map_values(|s: String| s@), name@) == Some(i as int),
        r is None ==> last_named(names@.map_values(|s: String| s@), name@) is None,
{
    let ghost v = names@.map_values(|s: String| s@);
    let mut i: usize = names.len();
    assert(v.take(i as int) =~= v);
    while i > 0
        invariant
            0 <= i <= names@.len(),
            v == names@.map_values(|s: String| s@),
            last_named(v, name@) == last_named(v.take(i as int), name@),
        decreases i,
    {
        let ghost t = v.take(i as int);
        assert(t.last() == names@[i - 1]@);
        assert(t.drop_last() =~= v.take(i - 1));
        if names[i - 1] == *name {
            return Some(i - 1);
        }
        i -= 1;
    }
    None
}

/// The set a name refers to (the last set so named).
fn resolve_set(names: &Names, name: &String) -> (r: Option<SetId>)
    ensures
        r == match last_named(names.set_view(), name@) {
            Some(i) => Some(set_id(i)),
            None => None::<SetId>,
        },
{
    match find_last(&names.sets, name) {
        Some(i) => Some(SetId::new(i)),
        None => None,
    }
}

/// The layer of the current set a name refers to (the last layer so named).
fn resolve_layer(names: &Names, name: &String) -> (r: Option<LayerId>)
    ensures
        r == match last_named(names.layer_view(), name@) {
            Some(i) => Some(layer_id(i)),
            None => None::<LayerId>,
        },
{
    match find_last(&names.layers, name) {
        Some(i) => Some(LayerId::new(i)),
        None => None,
    }
}

/// Every diagnostic is an error.
pub open spec fn all_errors(d: Seq<Diagnostic>) -> bool {
    forall|i: int| 0 <= i < d.len() ==> (#[trigger] d[i]).severity == Severity::Error
}

/// Record an unresolved reference.
fn unresolved(diags: &mut Vec<Diagnostic>, what: &str, name: &String)
    ensures
        final(diags)@.len() == old(diags)@.len() + 1,
        forall|i: int| 0 <= i < old(diags)@.len() ==> final(diags)@[i] == old(diags)@[i],
        final(diags)@[old(diags)@.len() as int].severity == Severity::Error,
{
    let message = String::from_str(what).concat(name.as_str());
    diags.push(Diagnostic { severity: Severity::Error, message });
}

/// Compile one action, recording an error diagnostic when its reference does not resolve.
fn compile_action(action: &Action, names: &Names, diags: &mut Vec<Diagnostic>) -> (c: CompiledAction)
    ensures
        action_resolves(*action, names.set_view(), names.layer_view()) ==> final(diags)@ == old(diags)@
            && action_compiled(*action, c, names.set_view(), names.layer_view()),
        !action_resolves(*action, names.set_view(), names.layer_view()) ==> final(diags)@.len() > old(
            diags,
        )@.len(),
        all_errors(old(diags)@) ==> all_errors(final(diags)@),
        final(diags)@.len() >= old(diags)@.len(),
        forall|k: int| 0 <= k < old(diags)@.len() ==> final(diags)@[k] == old(diags)@[k],
{
    match action {
        Action::Nothing => CompiledAction::Nothing,
        Action::Key(k) => CompiledAction::Key(*k),
        Action::MouseButton(b) => CompiledAction::MouseButton(*b),
        Action::GamepadButton(b) => CompiledAction::GamepadButton(*b),
        Action::ChangeActionSet(n) => match resolve_set(names, n) {
            Some(s) => CompiledAction::ChangeActionSet(s),
            None => {
                unresolved(diags, "unknown action set: ", n);
                CompiledAction::Nothing
            },
        },
        Action::HoldLayer(n) => match resolve_layer(names, n) {
            Some(l) => CompiledAction::HoldLayer(l),
            None => {
                unresolved(diags, "unknown layer: ", n);
                CompiledAction::Nothing
            },
        },
        Action::AddLayer(n) => match resolve_layer(names, n) {
            Some(l) => CompiledAction::AddLayer(l),
            None => {
                unresolved(diags, "unknown layer: ", n);
                CompiledAction::Nothing
            },
        },
        Action::RemoveLayer(n) => match resolve_layer(names, n) {
            Some(l) => CompiledAction::RemoveLayer(l),
            None => {
                unresolved(diags, "unknown layer: ", n);
                CompiledAction::Nothing
            },
        },
    }
}

/// Compile a command list.
fn compile_commands(commands: &Vec<Command>, names: &Names, diags: &mut Vec<Diagnostic>) -> (out: Vec<
    CompiledCommand,
>)
    ensures
        commands_resolve(commands@, names.set_view(), names.layer_view()) ==> final(diags)@ == old(
            diags,
        )@ && commands_compiled(commands@, out@, names.set_view(), names.layer_view()),
        !commands_resolve(commands@, names.set_view(), names.layer_view()) ==> final(diags)@.len() > old(
            diags,
        )@.len(),
        all_errors(old(diags)@) ==> all_errors(final(diags)@),
        final(diags)@.len() >= old(diags)@.len(),
        forall|k: int| 0 <= k < old(diags)@.len() ==> final(diags)@[k] == old(diags)@[k],
{
    let ghost sets = names.set_view();
    let ghost layers = names.layer_view();
    let ghost d0 = diags@;
    let mut out: Vec<CompiledCommand> = Vec::new();
    let mut i: usize = 0;
    while i < commands.len()
        invariant
            0 <= i <= commands@.len(),
            sets == names.set_view(),
            layers == names.layer_view(),
            out@.len() == i,
            diags@.len() >= d0.len(),
            forall|k: int| 0 <= k < d0.len() ==> diags@[k] == d0[k],
            all_errors(d0) ==> all_errors(diags@),
            (diags@.len() == d0.len()) == commands_resolve(commands@.take(i as int), sets, layers),
            diags@.len() == d0.len() ==> commands_compiled(commands@.take(i as int), out@, sets, layers),
        decreases commands.len() - i,
    {
        let cmd = &commands[i];
        let ghost dc = diags@;
        let mut actions: Vec<CompiledAction> = Vec::new();
        let mut j: usize = 0;
        while j < cmd.actions.len()
            invariant
                0 <= j <= cmd.actions@.len(),
                sets == names.set_view(),
                layers == names.layer_view(),
                actions@.len() == j,
                diags@.len() >= dc.len(),
                dc.len() >= d0.len(),
                forall|k: int| 0 <= k < dc.len() ==> diags@[k] == dc[k],
                forall|k: int| 0 <= k < d0.len() ==> dc[k] == d0[k],
                all_errors(dc) ==> all_errors(diags@),
                (diags@.len() == dc.len()) == forall|m: int| 0 <= m < j ==> action_resolves(#[trigger] cmd.actions@[m], sets, layers),
                diags@.len() == dc.len() ==> forall|m: int|
                    0 <= m < j ==> action_compiled(#[trigger] cmd.actions@[m], actions@[m], sets, layers),
            decreases cmd.actions.len() - j,
        {
            let a = compile_action(&cmd.actions[j], names, diags);
            actions.push(a);
            j += 1;
        }
        out.push(CompiledCommand { activator: cmd.activator, actions, settings: cmd.settings });
        proof {
            let t1 = commands@.take(i + 1);
            let t0 = commands@.take(i as int);
            assert forall|a: int| 0 <= a < i implies #[trigger] t1[a] == t0[a] by {}
            assert(t1[i as int] == *cmd);
            if diags@.len() == d0.len() {
                assert(dc.len() == d0.len());
                assert forall|a: int, b: int| 0 <= a < t1.len() && 0 <= b < t1[a].actions@.len() implies action_resolves(
                    #[trigger] t1[a].actions@[b],
                    sets,
                    layers,
                ) by {
                    if a < i {
                        assert(t1[a] == t0[a]);
                    }
                }
            } else {
                if commands_resolve(t1, sets, layers) {
                    assert forall|a: int, b: int| 0 <= a < t0.len() && 0 <= b < t0[a].actions@.len() implies action_resolves(
                        #[trigger] t0[a].actions@[b],
                        sets,
                        layers,
                    ) by {
                        assert(t1[a] == t0[a]);
                    }
                    assert forall|m: int| 0 <= m < cmd.actions@.len() implies action_resolves(
                        #[trigger] cmd.actions@[m],
                        sets,
                        layers,
                    ) by {
                        assert(t1[i as int].actions@[m] == cmd.actions@[m]);
                    }
                    assert(false);
                }
            }
        }
        i += 1;
    }
    assert(commands@.take(commands@.len() as int) =~= commands@);
    proof {
        if diags@.len() == d0.len() {
            assert(diags@ =~= d0);
        }
    }
    out
}

/// The diagnostics grew past `d0` (`more`) or stayed exactly `d0`; what was there is kept.
pub open spec fn grew_from(d0: Seq<Diagnostic>, d: Seq<Diagnostic>) -> bool {
    &&& d.len() >= d0.len()
    &&& forall|k: int| 0 <= k < d0.len() ==> d[k] == d0[k]
    &&& all_errors(d0) ==> all_errors(d)
}

proof fn lemma_grew_trans(d0: Seq<Diagnostic>, d1: Seq<Diagnostic>, d2: Seq<Diagnostic>)
    requires
        grew_from(d0, d1),
        grew_from(d1, d2),
    ensures
        grew_from(d0, d2),
{
}

/// Compile one binding.
fn compile_binding(binding: &SourceBinding, names: &Names, diags: &mut Vec<Diagnostic>) -> (c: CompiledBinding)
    ensures
        grew_from(old(diags)@, final(diags)@),
        binding_resolves(*binding, names.set_view(), names.layer_view()) ==> final(diags)@ == old(diags)@
            && binding_compiled(*binding, c, names.set_view(), names.layer_view()),
        !binding_resolves(*binding, names.set_view(), names.layer_view()) ==> final(diags)@.len() > old(
            diags,
        )@.len(),
{
    let ghost d0 = diags@;
    let ghost sets = names.set_view();
    let ghost layers = names.layer_view();
    match binding {
        SourceBinding::Button { commands } => {
            let c = compile_commands(commands, names, diags);
            proof {
                assert(source_nodes(*binding)[0] == commands@);
            }
            CompiledBinding::Button { commands: c }
        },
        SourceBinding::ButtonPad { up, down, left, right } => {
            let u = compile_commands(up, names, diags);
            let ghost d1 = diags@;
            let d = compile_commands(down, names, diags);
            let ghost d2 = diags@;
            let l = compile_commands(left, names, diags);
            let ghost d3 = diags@;
            let r = compile_commands(right, names, diags);
            proof {
                let ns = source_nodes(*binding);
                assert(ns[0] == up@ && ns[1] == down@ && ns[2] == left@ && ns[3] == right@);
                lemma_grew_trans(d0, d1, d2);
                lemma_grew_trans(d0, d2, d3);
                lemma_grew_trans(d0, d3, diags@);
                if binding_resolves(*binding, sets, layers) {
                    assert(commands_resolve(ns[0], sets, layers));
                    assert(commands_resolve(ns[1], sets, layers));
                    assert(commands_resolve(ns[2], sets, layers));
                    assert(commands_resolve(ns[3], sets, layers));
                } else {
                    let k = choose|k: int| 0 <= k < ns.len() && !commands_resolve(#[trigger] ns[k], sets, layers);
                }
            }
            CompiledBinding::ButtonPad { up: u, down: d, left: l, right: r }
        },
        SourceBinding::Joystick { settings, outer_ring } => {
            let o = compile_commands(outer_ring, names, diags);
            proof {
                assert(source_nodes(*binding)[0] == outer_ring@);
            }
            CompiledBinding::Joystick { settings: *settings, outer_ring: o }
        },
        SourceBinding::DirectionalPad { settings, up, down, left, right, outer_ring } => {
            let u = compile_commands(up, names, diags);
            let ghost d1 = diags@;
            let d = compile_commands(down, names, diags);
            let ghost d2 = diags@;
            let l = compile_commands(left, names, diags);
            let ghost d3 = diags@;
            let r = compile_commands(right, names, diags);
            let ghost d4 = diags@;
            let o = compile_commands(outer_ring, names, diags);
            proof {
                let ns = source_nodes(*binding);
                assert(ns[0] == up@ && ns[1] == down@ && ns[2] == left@ && ns[3] == right@ && ns[4]
                    == outer_ring@);
                lemma_grew_trans(d0, d1, d2);
                lemma_grew_trans(d0, d2, d3);
                lemma_grew_trans(d0, d3, d4);
                lemma_grew_trans(d0, d4, diags@);
                if binding_resolves(*binding, sets, layers) {
                    assert(commands_resolve(ns[0], sets, layers));
                    assert(commands_resolve(ns[1], sets, layers));
                    assert(commands_resolve(ns[2], sets, layers));
                    assert(commands_resolve(ns[3], sets, layers));
                    assert(commands_resolve(ns[4], sets, layers));
                } else {
                    let k = choose|k: int| 0 <= k < ns.len() && !commands_resolve(#[trigger] ns[k], sets, layers);
                }
            }
            CompiledBinding::DirectionalPad { settings: *settings, up: u, down: d, left: l, right: r, outer_ring: o }
        },
        SourceBinding::AsMouse { settings } => CompiledBinding::AsMouse { settings: *settings },
        SourceBinding::JoystickMouse { settings } => CompiledBinding::JoystickMouse { settings: *settings },
        SourceBinding::GyroToMouse { settings } => CompiledBinding::GyroToMouse { settings: *settings },
        SourceBinding::Trigger { settings, soft_pull_at, soft_pull } => {
            let s = compile_commands(soft_pull, names, diags);
            proof {
                assert(source_nodes(*binding)[0] == soft_pull@);
            }
            CompiledBinding::Trigger { settings: *settings, soft_pull_at: *soft_pull_at, soft_pull: s }
        },
        SourceBinding::Unbound => CompiledBinding::Unbound,
    }
}

/// Compile a binding table, keeping its sources.
fn compile_bindings(bindings: &SourceMap<SourceBinding>, names: &Names, diags: &mut Vec<Diagnostic>) -> (out:
    SourceMap<CompiledBinding>)
    ensures
        crate::program::sorted_sources(out.pairs()),
        grew_from(old(diags)@, final(diags)@),
        bindings_resolve(*bindings, names.set_view(), names.layer_view()) ==> final(diags)@ == old(diags)@
            && bindings_compiled(*bindings, out, names.set_view(), names.layer_view()),
        !bindings_resolve(*bindings, names.set_view(), names.layer_view()) ==> final(diags)@.len() > old(
            diags,
        )@.len(),
{
    proof {
        use_type_invariant(bindings);
    }
    let ghost sets = names.set_view();
    let ghost layers = names.layer_view();
    let ghost d0 = diags@;
    let pairs = bindings.iter();
    let ghost ps = bindings.pairs();
    let mut out: SourceMap<CompiledBinding> = SourceMap::new();
    let mut i: usize = 0;
    while i < pairs.len()
        invariant
            0 <= i <= ps.len(),
            pairs@ == ps,
            ps == bindings.pairs(),
            crate::program::sorted_sources(ps),
            crate::program::sorted_sources(out.pairs()),
            sets == names.set_view(),
            layers == names.layer_view(),
            grew_from(d0, diags@),
            (diags@.len() == d0.len()) == forall|j: int| 0 <= j < i ==> binding_resolves(#[trigger] ps[j].1, sets, layers),
            forall|k: InputSource| #[trigger] out.lookup(k) is Some == exists|j: int| 0 <= j < i && ps[j].0 == k,
            diags@.len() == d0.len() ==> forall|j: int|
                0 <= j < i ==> binding_compiled(#[trigger] ps[j].1, out.lookup(ps[j].0).unwrap(), sets, layers),
        decreases ps.len() - i,
    {
        let (source, b) = &pairs[i];
        let ghost dprev = diags@;
        let c = compile_binding(b, names, diags);
        let ghost before = out;
        out.insert(*source, c);
        proof {
            lemma_grew_trans(d0, dprev, diags@);
            assert forall|k: InputSource| #[trigger] out.lookup(k) is Some == exists|j: int| 0 <= j < i + 1 && ps[j].0 == k by {
                if k == *source {
                    assert(ps[i as int].0 == k);
                }
            }
            if diags@.len() == d0.len() {
                assert forall|j: int| 0 <= j < i + 1 implies binding_compiled(#[trigger] ps[j].1, out.lookup(ps[j].0).unwrap(), sets, layers) by {
                    if j < i {
                        assert(ps[j].0.spec_code() < ps[i as int].0.spec_code());
                        assert(before.lookup(ps[j].0) == out.lookup(ps[j].0));
                    }
                }
            }
        }
        i += 1;
    }
    proof {
        if diags@.len() == d0.len() {
            assert(diags@ =~= d0);
            assert forall|k: InputSource| #![trigger bindings.lookup(k)] #![trigger out.lookup(k)]
                (bindings.lookup(k) is Some <==> out.lookup(k) is Some) && (bindings.lookup(k) is Some ==> binding_compiled(
                    bindings.lookup(k).unwrap(),
                    out.lookup(k).unwrap(),
                    sets,
                    layers,
                )) by {
                crate::program::lemma_assoc_some(ps, k);
                if bindings.lookup(k) is Some {
                    let j = choose|j: int| 0 <= j < ps.len() && ps[j].0 == k;
                    assert forall|m: int| 0 <= m < j implies ps[m].0 != k by {
                        assert(ps[m].0.spec_code() < ps[j].0.spec_code());
                    }
                    crate::program::lemma_assoc_at(ps, k, j);
                }
            }
        }
    }
    out
}

/// Every binding table of the profile is in source order without repeats (as every
/// [`SourceMap`] built by `new` and `insert` is).
pub open spec fn doc_sorted(doc: ConfigDoc) -> bool {
    forall|i: int|
        0 <= i < doc.action_sets@.len() ==> {
            &&& crate::program::sorted_sources((#[trigger] doc.action_sets@[i]).bindings.pairs())
            &&& forall|j: int|
                0 <= j < doc.action_sets@[i].layers@.len() ==> crate::program::sorted_sources(
                    (#[trigger] doc.action_sets@[i].layers@[j]).bindings.pairs(),
                )
        }
}

/// A copy of `v`.
fn copy_names(v: &Vec<String>) -> (r: Vec<String>)
    ensures
        r@.map_values(|s: String| s@) == v@.map_values(|s: String| s@),
{
    let mut r: Vec<String> = Vec::new();
    let mut i: usize = 0;
    while i < v.len()
        invariant
            0 <= i <= v@.len(),
            r@.len() == i,
            forall|j: int| 0 <= j < i ==> (#[trigger] r@[j])@ == v@[j]@,
        decreases v.len() - i,
    {
        r.push(v[i].clone());
        i += 1;
    }
    assert(r@.map_values(|s: String| s@) =~= v@.map_values(|s: String| s@));
    r
}

/// Compile one layer.
fn compile_layer(layer: &Layer, names: &Names, diags: &mut Vec<Diagnostic>) -> (out: CompiledLayer)
    ensures
        grew_from(old(diags)@, final(diags)@),
        out.name@ == layer.name@,
        crate::program::sorted_sources(out.bindings.pairs()),
        bindings_resolve(layer.bindings, names.set_view(), names.layer_view()) ==> final(diags)@ == old(
            diags,
        )@ && bindings_compiled(layer.bindings, out.bindings, names.set_view(), names.layer_view()),
        !bindings_resolve(layer.bindings, names.set_view(), names.layer_view()) ==> final(diags)@.len()
            > old(diags)@.len(),
{
    CompiledLayer { name: layer.name.clone(), bindings: compile_bindings(&layer.bindings, names, diags) }
}

/// Compile one action set: its base bindings and its layers, layer names resolving within it.
fn compile_set(set: &ActionSet, set_names: &Vec<String>, diags: &mut Vec<Diagnostic>) -> (out: CompiledSet)
    ensures
        grew_from(old(diags)@, final(diags)@),
        set_resolves(*set, set_names@.map_values(|s: String| s@)) ==> final(diags)@ == old(diags)@
            && set_compiled(*set, out, set_names@.map_values(|s: String| s@)),
        !set_resolves(*set, set_names@.map_values(|s: String| s@)) ==> final(diags)@.len() > old(
            diags,
        )@.len(),
{
    let ghost sets = set_names@.map_values(|s: String| s@);
    let ghost lnames = layer_names(set.layers@);
    let mut layer_list: Vec<String> = Vec::new();
    let mut i: usize = 0;
    while i < set.layers.len()
        invariant
            0 <= i <= set.layers@.len(),
            layer_list@.len() == i,
            forall|j: int| 0 <= j < i ==> (#[trigger] layer_list@[j])@ == set.layers@[j].name@,
        decreases set.layers.len() - i,
    {
        layer_list.push(set.layers[i].name.clone());
        i += 1;
    }
    let names = Names { sets: copy_names(set_names), layers: layer_list };
    assert(names.layer_view() =~= lnames);
    assert(names.set_view() == sets);
    let ghost d0 = diags@;
    let base = compile_bindings(&set.bindings, &names, diags);
    let ghost d1 = diags@;
    let mut layers: Vec<CompiledLayer> = Vec::new();
    let mut i: usize = 0;
    while i < set.layers.len()
        invariant
            0 <= i <= set.layers@.len(),
            names.set_view() == sets,
            names.layer_view() == lnames,
            lnames == layer_names(set.layers@),
            layers@.len() == i,
            grew_from(d1, diags@),
            (diags@.len() == d1.len()) == forall|j: int| 0 <= j < i ==> bindings_resolve(#[trigger] set.layers@[j].bindings, sets, lnames),
            forall|j: int| 0 <= j < i ==> (#[trigger] layers@[j]).name@ == set.layers@[j].name@,
            forall|j: int| 0 <= j < i ==> crate::program::sorted_sources((#[trigger] layers@[j]).bindings.pairs()),
            diags@.len() == d1.len() ==> forall|j: int|
                0 <= j < i ==> bindings_compiled(set.layers@[j].bindings, (#[trigger] layers@[j]).bindings, sets, lnames),
        decreases set.layers.len() - i,
    {
        let ghost dprev = diags@;
        let l = compile_layer(&set.layers[i], &names, diags);
        layers.push(l);
        proof {
            lemma_grew_trans(d1, dprev, diags@);
        }
        i += 1;
    }
    proof {
        lemma_grew_trans(d0, d1, diags@);
        if diags@.len() == d0.len() {
            assert(d1.len() == d0.len());
            assert(diags@ =~= d0);
        }
    }
    CompiledSet { name: set.name.clone(), base, layers }
}

/// Compile a profile into the runtime [`Program`]: `Err` carries an error diagnostic for every
/// set or layer reference that names nothing. The result is tagged [`Role::Main`] and starts on
/// the first action set.
pub fn compile(doc: &ConfigDoc) -> (r: Result<Program, Vec<Diagnostic>>)
    ensures
        doc_resolves(*doc) ==> (r matches Ok(p) && program_compiled(*doc, p)),
        r matches Ok(p) ==> (fits_ids(*doc) ==> p.wf()),
        !doc_resolves(*doc) ==> (r matches Err(d) && d@.len() > 0 && all_errors(d@)),
{
    let ghost sets = set_names(doc.action_sets@);
    let mut set_list: Vec<String> = Vec::new();
    let mut i: usize = 0;
    while i < doc.action_sets.len()
        invariant
            0 <= i <= doc.action_sets@.len(),
            set_list@.len() == i,
            forall|j: int| 0 <= j < i ==> (#[trigger] set_list@[j])@ == doc.action_sets@[j].name@,
        decreases doc.action_sets.len() - i,
    {
        set_list.push(doc.action_sets[i].name.clone());
        i += 1;
    }
    assert(set_list@.map_values(|s: String| s@) =~= sets);
    let mut diags: Vec<Diagnostic> = Vec::new();
    let mut out_sets: Vec<CompiledSet> = Vec::new();
    let mut i: usize = 0;
    while i < doc.action_sets.len()
        invariant
            0 <= i <= doc.action_sets@.len(),
            set_list@.map_values(|s: String| s@) == sets,
            sets == set_names(doc.action_sets@),
            out_sets@.len() == i,
            all_errors(diags@),
            (diags@.len() == 0) == forall|j: int| 0 <= j < i ==> set_resolves(#[trigger] doc.action_sets@[j], sets),
            diags@.len() == 0 ==> forall|j: int|
                0 <= j < i ==> set_compiled(doc.action_sets@[j], #[trigger] out_sets@[j], sets),
        decreases doc.action_sets.len() - i,
    {
        let ghost dprev = diags@;
        let s = compile_set(&doc.action_sets[i], &set_list, &mut diags);
        out_sets.push(s);
        i += 1;
    }
    if diags.len() > 0 {
        return Err(diags);
    }
    let p = Program {
        meta: ProgramMeta { name: doc.name.clone(), role: Role::Main },
        sets: out_sets,
        default_set: SetId::new(0),
        rumble: doc.rumble,
    };
    doc_in_order(doc);
    proof {
        if fits_ids(*doc) {
            law_compiled_program_is_wf(*doc, p);
        }
    }
    Ok(p)
}

proof fn lemma_last_named_in(names: Seq<Seq<char>>, name: Seq<char>)
    ensures
        last_named(names, name) matches Some(i) ==> 0 <= i < names.len(),
    decreases names.len(),
{
    if names.len() > 0 {
        lemma_last_named_in(names.drop_last(), name);
    }
}

proof fn lemma_commands_ok(
    src: Seq<Command>,
    out: Seq<CompiledCommand>,
    sets: Seq<Seq<char>>,
    layers: Seq<Seq<char>>,
)
    requires
        commands_compiled(src, out, sets, layers),
        commands_resolve(src, sets, layers),
        sets.len() <= 65536,
        layers.len() <= 65536,
    ensures
        crate::program::commands_ok(out, sets.len() as int, layers.len() as int),
{
    assert forall|i: int, j: int| 0 <= i < out.len() && 0 <= j < out[i].actions@.len() implies crate::program::action_ok(
        #[trigger] out[i].actions@[j],
        sets.len() as int,
        layers.len() as int,
    ) by {
        let a = src[i].actions@[j];
        assert(action_compiled(a, out[i].actions@[j], sets, layers));
        assert(action_resolves(a, sets, layers));
        match a {
            Action::ChangeActionSet(n) => {
                lemma_last_named_in(sets, n@);
            },
            Action::HoldLayer(n) => {
                lemma_last_named_in(layers, n@);
            },
            Action::AddLayer(n) => {
                lemma_last_named_in(layers, n@);
            },
            Action::RemoveLayer(n) => {
                lemma_last_named_in(layers, n@);
            },
            _ => {},
        }
    }
}

proof fn lemma_binding_ok(b: SourceBinding, c: CompiledBinding, sets: Seq<Seq<char>>, layers: Seq<Seq<char>>)
    requires
        binding_compiled(b, c, sets, layers),
        binding_resolves(b, sets, layers),
        sets.len() <= 65536,
        layers.len() <= 65536,
    ensures
        crate::program::binding_ok(c, sets.len() as int, layers.len() as int),
{
    let sn = source_nodes(b);
    let cn = crate::program::binding_nodes(c);
    assert(sn.len() == cn.len());
    assert forall|k: int| 0 <= k < cn.len() implies crate::program::commands_ok(#[trigger] cn[k], sets.len() as int, layers.len() as int) by {
        assert(commands_resolve(sn[k], sets, layers));
        assert(commands_compiled(sn[k], cn[k], sets, layers));
        lemma_commands_ok(sn[k], cn[k], sets, layers);
    }
}

proof fn lemma_bindings_ok(
    src: SourceMap<SourceBinding>,
    out: SourceMap<CompiledBinding>,
    sets: Seq<Seq<char>>,
    layers: Seq<Seq<char>>,
)
    requires
        bindings_compiled(src, out, sets, layers),
        bindings_resolve(src, sets, layers),
        crate::program::sorted_sources(src.pairs()),
        crate::program::sorted_sources(out.pairs()),
        sets.len() <= 65536,
        layers.len() <= 65536,
    ensures
        crate::program::bindings_ok(out, sets.len() as int, layers.len() as int),
{
    let ps = out.pairs();
    assert forall|i: int| 0 <= i < ps.len() implies crate::program::binding_ok(#[trigger] ps[i].1, sets.len() as int, layers.len() as int) by {
        let k = ps[i].0;
        assert forall|m: int| 0 <= m < i implies ps[m].0 != k by {
            assert(ps[m].0.spec_code() < ps[i].0.spec_code());
        }
        crate::program::lemma_assoc_at(ps, k, i);
        assert(out.lookup(k) == Some(ps[i].1));
        let b = src.lookup(k).unwrap();
        src.lemma_lookup_entry(k);
        let j = choose|j: int| 0 <= j < src.pairs().len() && src.pairs()[j].1 == b;
        assert(binding_resolves(src.pairs()[j].1, sets, layers));
        lemma_binding_ok(b, ps[i].1, sets, layers);
    }
}

/// Every binding table of a profile is in source order (as every map is).
fn doc_in_order(doc: &ConfigDoc)
    ensures
        doc_sorted(*doc),
{
    let mut i: usize = 0;
    while i < doc.action_sets.len()
        invariant
            0 <= i <= doc.action_sets@.len(),
            forall|k: int|
                0 <= k < i ==> {
                    &&& crate::program::sorted_sources((#[trigger] doc.action_sets@[k]).bindings.pairs())
                    &&& forall|j: int|
                        0 <= j < doc.action_sets@[k].layers@.len() ==> crate::program::sorted_sources(
                            (#[trigger] doc.action_sets@[k].layers@[j]).bindings.pairs(),
                        )
                },
        decreases doc.action_sets.len() - i,
    {
        let set = &doc.action_sets[i];
        let base = &set.bindings;
        proof {
            use_type_invariant(base);
        }
        let mut j: usize = 0;
        while j < set.layers.len()
            invariant
                0 <= j <= set.layers@.len(),
                forall|m: int| 0 <= m < j ==> crate::program::sorted_sources((#[trigger] set.layers@[m]).bindings.pairs()),
            decreases set.layers.len() - j,
        {
            let layer = &set.layers[j];
            let b = &layer.bindings;
            proof {
                use_type_invariant(b);
            }
            j += 1;
        }
        i += 1;
    }
}

/// A profile's set and layer counts fit the program's ids: at least one action set (the program
/// starts on the first), and at most 65536 sets and 65536 layers per set.
pub open spec fn fits_ids(doc: ConfigDoc) -> bool {
    &&& 1 <= doc.action_sets@.len() <= 65536
    &&& forall|i: int| 0 <= i < doc.action_sets@.len() ==> (#[trigger] doc.action_sets@[i]).layers@.len() <= 65536
}

/// A compiled profile is a well-formed program (every id it names exists) when it has at least
/// one action set and its sets and layers fit the 16-bit ids — so the mapper can run it.
pub proof fn law_compiled_program_is_wf(doc: ConfigDoc, p: Program)
    requires
        doc_sorted(doc),
        doc_resolves(doc),
        program_compiled(doc, p),
        fits_ids(doc),
    ensures
        p.wf(),
{
    let sets = set_names(doc.action_sets@);
    assert forall|s: int| 0 <= s < p.sets@.len() implies (#[trigger] p.sets@[s]).refs_ok(p.sets@.len() as int)
        && p.sets@[s].layers@.len() <= 65536 by {
        let set = doc.action_sets@[s];
        let out = p.sets@[s];
        let layers = layer_names(set.layers@);
        assert(set_compiled(set, out, sets));
        assert(set_resolves(set, sets));
        lemma_bindings_ok(set.bindings, out.base, sets, layers);
        assert forall|l: int| 0 <= l < out.layers@.len() implies crate::program::bindings_ok(
            #[trigger] out.layers@[l].bindings,
            p.sets@.len() as int,
            out.layers@.len() as int,
        ) by {
            lemma_bindings_ok(set.layers@[l].bindings, out.layers@[l].bindings, sets, layers);
        }
    }
}

} // verus!
