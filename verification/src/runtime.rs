//! The runtime's decisions around the mapper: which program drives a role, the role the engine
//! boots into, the command-haptic and feedback presets, and the layer-stack view it reports.

use vstd::prelude::*;

use crate::chords::{eval_upto, exec_of, prev_of, ChordOutcome, Chords, ExecReq, GlobalChord};
use crate::logical::{ControllerState, LogicalFrame};
use crate::mapper::behavior::VirtualButtons;
use crate::mapper::command::TAP_MS;
use crate::mapper::reconcile::{reconcile_events, OutputEvent};
use crate::mapper::command::levels_add;
use crate::mapper::layers::{next_armed, next_held, next_persistent, next_set};
use crate::mapper::{no_levels, resolve_in, tick_upto, HapticReq, Mapper, Tick};
use crate::program::{CompiledBinding, LayerId, Program, Role, SourceMap};
use crate::vocab::{Button, HapticStrength, InputSource, Side, N_SOURCES};

verus! {

/// Which profile role the engine boots into.
#[derive(Debug, Clone, Copy, PartialEq, Eq, Structural)]
pub enum StartProfile {
    Main,
    Fallback,
}

/// The role the engine boots into.
pub fn start_role(start: StartProfile) -> (r: Role)
    ensures
        r == match start {
            StartProfile::Main => Role::Main,
            StartProfile::Fallback => Role::Fallback,
        },
{
    match start {
        StartProfile::Main => Role::Main,
        StartProfile::Fallback => Role::Fallback,
    }
}

/// The program driving `role`: its own slot, else the other role's, else `empty` (which maps
/// nothing), so the engine can run before any profile is applied.
pub fn program_for<'a>(
    role: &Role,
    main: &'a Option<Program>,
    fallback: &'a Option<Program>,
    empty: &'a Program,
) -> (p: &'a Program)
    ensures
        *p == match role {
            Role::Main => match (main, fallback) {
                (Some(m), _) => *m,
                (None, Some(f)) => *f,
                (None, None) => *empty,
            },
            Role::Fallback => match (fallback, main) {
                (Some(f), _) => *f,
                (None, Some(m)) => *m,
                (None, None) => *empty,
            },
        },
{
    match role {
        Role::Main => match main {
            Some(m) => m,
            None => match fallback {
                Some(f) => f,
                None => empty,
            },
        },
        Role::Fallback => match fallback {
            Some(f) => f,
            None => match main {
                Some(m) => m,
                None => empty,
            },
        },
    }
}

/// Command-haptic click pulse durations (µs) for the three strengths at full master volume.
pub const CLICK_LOW_US: u16 = 500;
pub const CLICK_MED_US: u16 = 1000;
pub const CLICK_HIGH_US: u16 = 2000;

/// The click pulse duration for `strength`, attenuated by the global `master` % (capped at 100),
/// never down to silence.
pub fn click_duration(strength: &HapticStrength, master: u8) -> (d: u16)
    ensures
        ({
            let base: int = match strength {
                HapticStrength::Low => CLICK_LOW_US as int,
                HapticStrength::Medium => CLICK_MED_US as int,
                HapticStrength::High => CLICK_HIGH_US as int,
            };
            let m: int = if master <= 100 {
                master as int
            } else {
                100
            };
            d == if base * m / 100 >= 1 {
                base * m / 100
            } else {
                1
            }
        }),
{
    let base: u32 = match strength {
        HapticStrength::Low => CLICK_LOW_US as u32,
        HapticStrength::Medium => CLICK_MED_US as u32,
        HapticStrength::High => CLICK_HIGH_US as u32,
    };
    let m: u32 = if master <= 100 {
        master as u32
    } else {
        100
    };
    assert(base * m <= 200000) by (nonlinear_arith)
        requires
            base <= 2000,
            m <= 100,
    ;
    let scaled = base * m / 100;
    assert(scaled <= 2000) by (nonlinear_arith)
        requires
            scaled == base * m / 100,
            base <= 2000,
            m <= 100,
    ;
    if scaled >= 1 {
        scaled as u16
    } else {
        1
    }
}

/// A command-feedback click strength.
#[derive(Debug, Clone, Copy, PartialEq, Eq, Structural)]
pub enum Click {
    Weak,
    Medium,
    Strong,
}

/// An audio tone preset: a pitch and a length.
#[derive(Debug, Clone, Copy, PartialEq, Eq, Structural)]
pub enum Tone {
    ShortLow,
    ShortMedium,
    ShortHigh,
    LongLow,
    LongMedium,
    LongHigh,
}

/// A frequency sweep preset.
#[derive(Debug, Clone, Copy, PartialEq, Eq, Structural)]
pub enum Sweep {
    Up1,
    Down1,
    Up2,
    Down2,
    Up3,
    Down3,
}

/// A command-feedback effect: one to three clicks or tones, or a sweep.
#[derive(Debug, Clone, Copy, PartialEq, Eq, Structural)]
pub enum Effect {
    Haptic(Click),
    HapticDouble(Click, Click),
    HapticTriple(Click, Click, Click),
    Audio(Tone),
    AudioDouble(Tone, Tone),
    AudioTriple(Tone, Tone, Tone),
    Chirp(Sweep),
}

/// One playable note.
#[derive(Debug, Clone, Copy, PartialEq, Eq, Structural)]
pub enum Note {
    Haptic(Click),
    Audio(Tone),
    Chirp(Sweep),
}

/// A note and the wait (ms) before it plays, counted from the previous note's onset.
#[derive(Debug, Clone, Copy, PartialEq, Eq, Structural)]
pub struct SeqNote {
    pub interval_ms: u16,
    pub note: Note,
}

/// Tone play durations (ms).
pub const SHORT_MS: u16 = 30;
pub const LONG_MS: u16 = 100;
/// Silence between consecutive notes of a pattern.
pub const AUDIO_DOUBLE_GAP_MS: u16 = 40;
pub const AUDIO_TRIPLE_GAP_MS: u16 = 30;
pub const HAPTIC_DOUBLE_GAP_MS: u16 = 50;
pub const HAPTIC_TRIPLE_GAP_MS: u16 = 40;
/// Tone pitches (Hz).
pub const TONE_LOW_HZ: u16 = 800;
pub const TONE_MED_HZ: u16 = 1200;
pub const TONE_HIGH_HZ: u16 = 1600;

/// A tone's carrier frequency (Hz).
pub fn tone_freq(t: Tone) -> (f: u16)
    ensures
        f == match t {
            Tone::ShortLow | Tone::LongLow => TONE_LOW_HZ,
            Tone::ShortMedium | Tone::LongMedium => TONE_MED_HZ,
            Tone::ShortHigh | Tone::LongHigh => TONE_HIGH_HZ,
        },
{
    match t {
        Tone::ShortLow | Tone::LongLow => TONE_LOW_HZ,
        Tone::ShortMedium | Tone::LongMedium => TONE_MED_HZ,
        Tone::ShortHigh | Tone::LongHigh => TONE_HIGH_HZ,
    }
}

pub open spec fn spec_tone_dur_ms(t: Tone) -> u16 {
    match t {
        Tone::ShortLow | Tone::ShortMedium | Tone::ShortHigh => SHORT_MS,
        Tone::LongLow | Tone::LongMedium | Tone::LongHigh => LONG_MS,
    }
}

/// A tone's play duration (ms).
pub fn tone_dur_ms(t: Tone) -> (d: u16)
    ensures
        d == spec_tone_dur_ms(t),
{
    match t {
        Tone::ShortLow | Tone::ShortMedium | Tone::ShortHigh => SHORT_MS,
        Tone::LongLow | Tone::LongMedium | Tone::LongHigh => LONG_MS,
    }
}

/// A sweep's `(start, end)` frequencies: `Up*` glides low → high, `Down*` high → low.
pub fn sweep_range(s: Sweep) -> (r: (u16, u16))
    ensures
        r == match s {
            Sweep::Up1 => (800u16, 2000u16),
            Sweep::Down1 => (2000u16, 800u16),
            Sweep::Up2 => (800u16, 1400u16),
            Sweep::Down2 => (1400u16, 800u16),
            Sweep::Up3 => (1400u16, 2000u16),
            Sweep::Down3 => (2000u16, 1400u16),
        },
{
    match s {
        Sweep::Up1 => (800, 2000),
        Sweep::Down1 => (2000, 800),
        Sweep::Up2 => (800, 1400),
        Sweep::Down2 => (1400, 800),
        Sweep::Up3 => (1400, 2000),
        Sweep::Down3 => (2000, 1400),
    }
}

/// The notes of an effect with their intervals: note 0 plays on arrival; each later note waits the
/// previous note's play duration plus the pattern gap (a click counts as instantaneous).
pub open spec fn spec_expand(effect: Effect) -> Seq<SeqNote> {
    match effect {
        Effect::Haptic(a) => seq![SeqNote { interval_ms: 0, note: Note::Haptic(a) }],
        Effect::HapticDouble(a, b) => seq![
            SeqNote { interval_ms: 0, note: Note::Haptic(a) },
            SeqNote { interval_ms: HAPTIC_DOUBLE_GAP_MS, note: Note::Haptic(b) },
        ],
        Effect::HapticTriple(a, b, c) => seq![
            SeqNote { interval_ms: 0, note: Note::Haptic(a) },
            SeqNote { interval_ms: HAPTIC_TRIPLE_GAP_MS, note: Note::Haptic(b) },
            SeqNote { interval_ms: HAPTIC_TRIPLE_GAP_MS, note: Note::Haptic(c) },
        ],
        Effect::Audio(a) => seq![SeqNote { interval_ms: 0, note: Note::Audio(a) }],
        Effect::AudioDouble(a, b) => seq![
            SeqNote { interval_ms: 0, note: Note::Audio(a) },
            SeqNote { interval_ms: (spec_tone_dur_ms(a) + AUDIO_DOUBLE_GAP_MS) as u16, note: Note::Audio(b) },
        ],
        Effect::AudioTriple(a, b, c) => seq![
            SeqNote { interval_ms: 0, note: Note::Audio(a) },
            SeqNote { interval_ms: (spec_tone_dur_ms(a) + AUDIO_TRIPLE_GAP_MS) as u16, note: Note::Audio(b) },
            SeqNote { interval_ms: (spec_tone_dur_ms(b) + AUDIO_TRIPLE_GAP_MS) as u16, note: Note::Audio(c) },
        ],
        Effect::Chirp(s) => seq![SeqNote { interval_ms: 0, note: Note::Chirp(s) }],
    }
}

/// Expand an effect into its notes and inter-note intervals.
pub fn expand(effect: &Effect) -> (v: Vec<SeqNote>)
    ensures
        v@ == spec_expand(*effect),
{
    let v = match effect {
        Effect::Haptic(a) => vec![SeqNote { interval_ms: 0, note: Note::Haptic(*a) }],
        Effect::HapticDouble(a, b) => vec![
            SeqNote { interval_ms: 0, note: Note::Haptic(*a) },
            SeqNote { interval_ms: HAPTIC_DOUBLE_GAP_MS, note: Note::Haptic(*b) },
        ],
        Effect::HapticTriple(a, b, c) => vec![
            SeqNote { interval_ms: 0, note: Note::Haptic(*a) },
            SeqNote { interval_ms: HAPTIC_TRIPLE_GAP_MS, note: Note::Haptic(*b) },
            SeqNote { interval_ms: HAPTIC_TRIPLE_GAP_MS, note: Note::Haptic(*c) },
        ],
        Effect::Audio(a) => vec![SeqNote { interval_ms: 0, note: Note::Audio(*a) }],
        Effect::AudioDouble(a, b) => vec![
            SeqNote { interval_ms: 0, note: Note::Audio(*a) },
            SeqNote { interval_ms: tone_dur_ms(*a) + AUDIO_DOUBLE_GAP_MS, note: Note::Audio(*b) },
        ],
        Effect::AudioTriple(a, b, c) => vec![
            SeqNote { interval_ms: 0, note: Note::Audio(*a) },
            SeqNote { interval_ms: tone_dur_ms(*a) + AUDIO_TRIPLE_GAP_MS, note: Note::Audio(*b) },
            SeqNote { interval_ms: tone_dur_ms(*b) + AUDIO_TRIPLE_GAP_MS, note: Note::Audio(*c) },
        ],
        Effect::Chirp(s) => vec![SeqNote { interval_ms: 0, note: Note::Chirp(*s) }],
    };
    assert(v@ =~= spec_expand(*effect));
    v
}

/// The total wait from note 0 of `r` to note `k`: the intervals of notes `1..=k`.
pub open spec fn wait_sum(r: Seq<SeqNote>, k: int) -> int
    decreases k,
{
    if k <= 0 {
        0
    } else {
        wait_sum(r, k - 1) + r[k].interval_ms
    }
}

proof fn lemma_wait_sum_mono(r: Seq<SeqNote>, a: int, b: int)
    requires
        a <= b,
    ensures
        wait_sum(r, a) <= wait_sum(r, b),
    decreases b - a,
{
    if a < b {
        lemma_wait_sum_mono(r, a, b - 1);
    }
}

proof fn lemma_wait_sum_skip(r: Seq<SeqNote>, j: int, m: int)
    requires
        0 <= j,
        0 <= m,
        j + m < r.len(),
    ensures
        wait_sum(r.subrange(j, r.len() as int), m) == wait_sum(r, j + m) - wait_sum(r, j),
    decreases m,
{
    if m > 0 {
        lemma_wait_sum_skip(r, j, m - 1);
    }
}

/// A feedback sequence in flight: the notes still to play, the side its clicks go to, and when
/// (ms, on the caller's clock) the front note is due. Each later note is due its interval after
/// the one before it.
pub struct Sequencer {
    side: Side,
    notes: Vec<SeqNote>,
    next: usize,
    next_due_ms: u64,
}

impl Sequencer {
    /// The notes not yet played, front first.
    pub closed spec fn remaining(self) -> Seq<SeqNote> {
        self.notes@.subrange(self.next as int, self.notes@.len() as int)
    }

    /// The side its clicks go to.
    pub closed spec fn click_side(self) -> Side {
        self.side
    }

    /// The side its clicks go to.
    pub fn side(&self) -> (r: Side)
        ensures
            r == self.click_side(),
    {
        self.side
    }

    /// When the front note is due.
    pub closed spec fn due(self) -> u64 {
        self.next_due_ms
    }

    /// A live sequence: something left to play, and its schedule fits the clock.
    pub closed spec fn wf(self) -> bool {
        &&& self.next < self.notes@.len()
        &&& self.next_due_ms + wait_sum(self.remaining(), self.remaining().len() - 1) <= u64::MAX
    }

    /// Start an effect at `now_ms`: note 0 plays at once (it is returned); a sequence is left only
    /// when more notes follow, its front due after its own interval.
    pub fn start(effect: &Effect, side: Side, now_ms: u64) -> (r: (Note, Option<Sequencer>))
        requires
            now_ms <= u64::MAX - 0x3_0000,
        ensures
            r.0 == spec_expand(*effect)[0].note,
            r.1 is Some <==> spec_expand(*effect).len() > 1,
            r.1 matches Some(s) ==> {
                &&& s.wf()
                &&& s.click_side() == side
                &&& s.remaining() == spec_expand(*effect).subrange(1, spec_expand(*effect).len() as int)
                &&& s.due() == now_ms + spec_expand(*effect)[1].interval_ms
            },
    {
        let notes = expand(effect);
        let first = notes[0].note;
        if notes.len() < 2 {
            return (first, None);
        }
        let due = now_ms + notes[1].interval_ms as u64;
        let s = Sequencer { side, notes, next: 1, next_due_ms: due };
        proof {
            let r = s.remaining();
            assert(r.len() <= 2);
            reveal_with_fuel(wait_sum, 3);
            assert(wait_sum(r, r.len() - 1) <= 0xFFFF);
        }
        (first, Some(s))
    }

    /// Play every note due by `now_ms`, in order (they are returned), keeping the schedule exact:
    /// a note is due its interval after the previous note was due, however late that one played.
    /// Returns whether notes remain.
    pub fn advance(&mut self, now_ms: u64) -> (r: (bool, Vec<Note>))
        requires
            old(self).wf(),
        ensures
            ({
                let rem = old(self).remaining();
                let j = r.1@.len() as int;
                &&& j <= rem.len()
                &&& forall|i: int| 0 <= i < j ==> r.1@[i] == rem[i].note
                &&& forall|i: int| 0 <= i < j ==> old(self).due() + wait_sum(rem, i) <= now_ms
                &&& j < rem.len() ==> old(self).due() + wait_sum(rem, j) > now_ms
                &&& final(self).remaining() == rem.subrange(j, rem.len() as int)
                &&& final(self).click_side() == old(self).click_side()
                &&& r.0 == (j < rem.len())
                &&& r.0 ==> final(self).wf() && final(self).due() == old(self).due() + wait_sum(rem, j)
            }),
    {
        let ghost rem = self.remaining();
        let ghost d0 = self.next_due_ms;
        let ghost n0 = self.next as int;
        let len = self.notes.len();
        let mut fired: Vec<Note> = Vec::new();
        while self.next < len && now_ms >= self.next_due_ms
            invariant
                len == self.notes@.len(),
                rem == old(self).notes@.subrange(n0, len as int),
                self.notes@ == old(self).notes@,
                self.side == old(self).side,
                0 <= n0 <= self.next <= len,
                n0 < len,
                d0 + wait_sum(rem, rem.len() - 1) <= u64::MAX,
                fired@.len() == self.next - n0,
                forall|i: int| 0 <= i < fired@.len() ==> fired@[i] == rem[i].note,
                forall|i: int| 0 <= i < fired@.len() ==> d0 + wait_sum(rem, i) <= now_ms,
                self.next < len ==> self.next_due_ms == d0 + wait_sum(rem, self.next - n0),
            decreases len - self.next,
        {
            let ghost k = self.next - n0;
            fired.push(self.notes[self.next].note);
            self.next = self.next + 1;
            if self.next < len {
                proof {
                    assert(rem.len() == len - n0);
                    assert(rem[k + 1] == self.notes@[self.next as int]);
                    lemma_wait_sum_mono(rem, k + 1, rem.len() - 1);
                }
                self.next_due_ms = self.next_due_ms + self.notes[self.next].interval_ms as u64;
            }
        }
        let more = self.next < len;
        proof {
            let j = fired@.len() as int;
            assert(self.remaining() =~= rem.subrange(j, rem.len() as int));
            if more {
                lemma_wait_sum_skip(rem, j, rem.len() - 1 - j);
            }
        }
        (more, fired)
    }
}

/// The Gordon click pulse duration (µs) for a strength (the duration is the strength lever).
pub fn gordon_click_duration(strength: &Click) -> (d: u16)
    ensures
        d == match strength {
            Click::Weak => 500u16,
            Click::Medium => 1000u16,
            Click::Strong => 2000u16,
        },
{
    match strength {
        Click::Weak => 500,
        Click::Medium => 1000,
        Click::Strong => 2000,
    }
}

/// The Deck click gain (dB) for a strength, per side (the right motor needs a little more).
pub fn neptune_click_gain(side: &Side, strength: &Click) -> (g: i8)
    ensures
        g == match (side, strength) {
            (Side::Left, Click::Weak) => -2i8,
            (Side::Left, Click::Medium) => 1i8,
            (Side::Left, Click::Strong) => 4i8,
            (Side::Right, Click::Weak) => -2i8,
            (Side::Right, Click::Medium) => 2i8,
            (Side::Right, Click::Strong) => 6i8,
        },
{
    match (side, strength) {
        (Side::Left, Click::Weak) => -2,
        (Side::Left, Click::Medium) => 1,
        (Side::Left, Click::Strong) => 4,
        (Side::Right, Click::Weak) => -2,
        (Side::Right, Click::Medium) => 2,
        (Side::Right, Click::Strong) => 6,
    }
}

/// The two click effects the Triton firmware distinguishes.
#[derive(Debug, Clone, Copy, PartialEq, Eq, Structural)]
pub enum HapticStyle {
    Weak,
    Strong,
}

/// The Triton click per strength: an effect style plus an amplitude byte (the style is the only
/// working lever; `Medium` carries a full amplitude in case the byte ever takes effect).
pub fn triton_click(strength: &Click) -> (r: (HapticStyle, u8))
    ensures
        r == match strength {
            Click::Weak => (HapticStyle::Weak, 0u8),
            Click::Medium => (HapticStyle::Weak, 255u8),
            Click::Strong => (HapticStyle::Strong, 0u8),
        },
{
    match strength {
        Click::Weak => (HapticStyle::Weak, 0),
        Click::Medium => (HapticStyle::Weak, 255),
        Click::Strong => (HapticStyle::Strong, 0),
    }
}

/// `ids` lists exactly the members of `keys` as layer ids, in declared order.
pub open spec fn ids_listed(ids: Seq<LayerId>, keys: Set<u32>) -> bool {
    &&& forall|i: int, j: int| 0 <= i < j < ids.len() ==> #[trigger] ids[i].0 < #[trigger] ids[j].0
    &&& forall|l: LayerId| #[trigger] ids.contains(l) == keys.contains(l.0 as u32)
}

/// `names` are the names of the layers `ids` of `set`.
pub open spec fn held_names(names: Seq<String>, set: crate::program::CompiledSet, ids: Seq<LayerId>) -> bool {
    &&& names.len() == ids.len()
    &&& forall|j: int| 0 <= j < names.len() ==> (#[trigger] names[j])@ == set.layers@[ids[j].0 as int].name@
}

/// The last-reported layer-stack view.
pub struct LayerView {
    last_set: Option<String>,
    last_held: Vec<LayerId>,
    last_persistent: Vec<LayerId>,
}

/// What changed in the layer-stack view since it was last reported: the active set's name, and
/// the names of the held and persistent layers (each `None` when unchanged).
pub struct LayerViewChanges {
    pub set: Option<String>,
    pub held: Option<Vec<String>>,
    pub persistent: Option<Vec<String>>,
}

impl LayerView {
    pub closed spec fn spec_last_set(self) -> Option<Seq<char>> {
        match self.last_set {
            Some(s) => Some(s@),
            None => None,
        }
    }

    pub closed spec fn spec_last_held(self) -> Seq<LayerId> {
        self.last_held@
    }

    pub closed spec fn spec_last_persistent(self) -> Seq<LayerId> {
        self.last_persistent@
    }

    /// Nothing reported yet.
    pub fn new() -> (v: LayerView)
        ensures
            v.spec_last_set() is None,
            v.spec_last_held().len() == 0,
            v.spec_last_persistent().len() == 0,
    {
        LayerView { last_set: None, last_held: Vec::new(), last_persistent: Vec::new() }
    }
}

fn same_ids(a: &Vec<LayerId>, b: &Vec<LayerId>) -> (r: bool)
    ensures
        r == (a@ == b@),
{
    if a.len() != b.len() {
        return false;
    }
    let mut i: usize = 0;
    while i < a.len()
        invariant
            0 <= i <= a@.len(),
            a@.len() == b@.len(),
            forall|j: int| 0 <= j < i ==> a@[j] == b@[j],
        decreases a.len() - i,
    {
        if a[i] != b[i] {
            return false;
        }
        i += 1;
    }
    assert(a@ =~= b@);
    true
}

/// The names of the layers `ids` of `set`.
fn layer_names_of(set: &crate::program::CompiledSet, ids: &Vec<LayerId>) -> (r: Vec<String>)
    requires
        forall|j: int| 0 <= j < ids@.len() ==> (#[trigger] ids@[j].0 as int) < set.layers@.len(),
    ensures
        r@.len() == ids@.len(),
        forall|j: int| 0 <= j < ids@.len() ==> (#[trigger] r@[j])@ == set.layers@[ids@[j].0 as int].name@,
{
    let mut r: Vec<String> = Vec::new();
    let mut i: usize = 0;
    while i < ids.len()
        invariant
            0 <= i <= ids@.len(),
            forall|j: int| 0 <= j < ids@.len() ==> (#[trigger] ids@[j].0 as int) < set.layers@.len(),
            r@.len() == i,
            forall|j: int| 0 <= j < i ==> (#[trigger] r@[j])@ == set.layers@[ids@[j].0 as int].name@,
        decreases ids.len() - i,
    {
        r.push(set.layer(&ids[i]).name.clone());
        i += 1;
    }
    r
}

/// Diff the mapper's live layer stack against the last-reported view: the active set is compared
/// by name, the held and persistent layers by id; whatever changed is reported (layers by name)
/// and becomes the new view.
pub fn emit_layer_view(mapper: &Mapper, program: &Program, view: &mut LayerView) -> (c: LayerViewChanges)
    requires
        mapper.valid_for(*program),
    ensures
        ({
            let set = program.sets@[mapper.spec_active_set().0 as int];
            &&& final(view).spec_last_set() == Some(set.name@)
            &&& ids_listed(final(view).spec_last_held(), mapper.held().dom())
            &&& ids_listed(final(view).spec_last_persistent(), mapper.persistent())
            &&& (c.set is Some) == (old(view).spec_last_set() != Some(set.name@))
            &&& c.set matches Some(n) ==> n@ == set.name@
            &&& (c.held is Some) == (old(view).spec_last_held() != final(view).spec_last_held())
            &&& (c.held matches Some(names) ==> held_names(names@, set, final(view).spec_last_held()))
            &&& (c.persistent is Some) == (old(view).spec_last_persistent() != final(view).spec_last_persistent())
            &&& (c.persistent matches Some(names) ==> held_names(names@, set, final(view).spec_last_persistent()))
        }),
{
    let set = program.set(&mapper.active_set());
    let set_changed = match &view.last_set {
        Some(s) => !(*s == set.name),
        None => true,
    };
    let set_event = if set_changed {
        view.last_set = Some(set.name.clone());
        Some(set.name.clone())
    } else {
        None
    };
    let held = mapper.held_layer_ids();
    proof {
        assert forall|j: int| 0 <= j < held@.len() implies (#[trigger] held@[j].0 as int) < set.layers@.len() by {
            assert(held@.contains(held@[j]));
        }
    }
    let held_event = if !same_ids(&held, &view.last_held) {
        let names = layer_names_of(set, &held);
        view.last_held = held;
        Some(names)
    } else {
        None
    };
    let persistent = mapper.persistent_layer_ids();
    proof {
        assert forall|j: int| 0 <= j < persistent@.len() implies (#[trigger] persistent@[j].0 as int) < set.layers@.len() by {
            assert(persistent@.contains(persistent@[j]));
        }
    }
    let persistent_event = if !same_ids(&persistent, &view.last_persistent) {
        let names = layer_names_of(set, &persistent);
        view.last_persistent = persistent;
        Some(names)
    } else {
        None
    };
    LayerViewChanges { set: set_event, held: held_event, persistent: persistent_event }
}

/// A control message to the mapping loop.
pub enum Control {
    /// Apply a program to a role, or clear the role (`None`).
    Apply { program: Option<Program>, role: Role },
    /// Replace the global chords (`None` clears them).
    SetChords(Option<Vec<GlobalChord>>),
    /// Stop the loop.
    Stop,
}

/// A present program is well-formed.
pub open spec fn slot_ok(p: Option<Program>) -> bool {
    p matches Some(q) ==> q.wf()
}

/// The program driving `role` (as [`program_for`] picks it).
pub open spec fn spec_program_for(role: Role, main: Option<Program>, fallback: Option<Program>, empty: Program) -> Program {
    match role {
        Role::Main => match (main, fallback) {
            (Some(m), _) => m,
            (None, Some(f)) => f,
            (None, None) => empty,
        },
        Role::Fallback => match (fallback, main) {
            (Some(f), _) => f,
            (None, Some(m)) => m,
            (None, None) => empty,
        },
    }
}

/// What the chords made of one controller frame: the frame the mapper sees (the chord buttons
/// masked out), the `CommandExecute` requests, and the role switch (if any).
pub struct ChordStep {
    pub frame: LogicalFrame,
    pub execute: Vec<ExecReq>,
    pub switched: Option<Role>,
}

/// The mapping loop's decisions: the applied programs, the global chords and their state, the
/// live role, the mapper, and the reported layer view. The loop itself (receiving frames and
/// control messages, emitting outputs, spawning commands, forwarding haptics) drives it.
pub struct MappingCore {
    main: Option<Program>,
    fallback: Option<Program>,
    empty: Program,
    chords: Option<Vec<GlobalChord>>,
    no_chords: Vec<GlobalChord>,
    chord_states: Chords,
    role: Role,
    mapper: Mapper,
    view: LayerView,
}

impl MappingCore {
    pub closed spec fn spec_role(self) -> Role {
        self.role
    }

    pub closed spec fn spec_main(self) -> Option<Program> {
        self.main
    }

    pub closed spec fn spec_fallback(self) -> Option<Program> {
        self.fallback
    }

    pub closed spec fn spec_mapper(self) -> Mapper {
        self.mapper
    }

    pub closed spec fn spec_chords(self) -> Seq<GlobalChord> {
        match self.chords {
            Some(c) => c@,
            None => Seq::empty(),
        }
    }

    pub closed spec fn spec_chord_states(self) -> Chords {
        self.chord_states
    }

    /// The program driving the live role.
    pub closed spec fn live_program(self) -> Program {
        spec_program_for(self.role, self.main, self.fallback, self.empty)
    }

    pub closed spec fn inv(self) -> bool {
        &&& slot_ok(self.main)
        &&& slot_ok(self.fallback)
        &&& self.empty.wf()
        &&& self.no_chords@.len() == 0
        &&& self.mapper.valid_for(self.live_program())
    }

    /// The loop's state at start: booted into the role `start` names (the chords' persistent
    /// base latched to it), chords fresh, the mapper seeded for the program driving that role.
    pub fn new(
        main: Option<Program>,
        fallback: Option<Program>,
        chords: Option<Vec<GlobalChord>>,
        start: StartProfile,
    ) -> (c: MappingCore)
        requires
            slot_ok(main),
            slot_ok(fallback),
        ensures
            c.inv(),
            c.spec_role() == match start {
                StartProfile::Main => Role::Main,
                StartProfile::Fallback => Role::Fallback,
            },
            c.spec_main() == main,
            c.spec_fallback() == fallback,
            c.spec_chords() == match chords {
                Some(v) => v@,
                None => Seq::<GlobalChord>::empty(),
            },
            c.spec_chord_states().spec_fallback_base() == (start == StartProfile::Fallback),
            c.spec_mapper().spec_active_set() == c.live_program().default_set,
            c.spec_mapper().spec_active_layers().len() == 0,
            c.spec_mapper().applied_levels() == no_levels(),
    {
        let empty = crate::program::empty_program();
        let no_chords: Vec<GlobalChord> = Vec::new();
        let role = start_role(start);
        let base = match role {
            Role::Fallback => true,
            Role::Main => false,
        };
        let chord_states = match &chords {
            Some(c) => Chords::new(c, base),
            None => Chords::new(&no_chords, base),
        };
        let mapper = Mapper::new(program_for(&role, &main, &fallback, &empty));
        MappingCore {
            main,
            fallback,
            empty,
            chords,
            no_chords,
            chord_states,
            role,
            mapper,
            view: LayerView::new(),
        }
    }

    /// Run the global chords on one controller frame. They may switch the role — re-seeding the
    /// mapper for the program that now drives it — and they consume their buttons, which the
    /// returned frame no longer holds.
    pub fn eval_chords(&mut self, state: ControllerState) -> (r: ChordStep)
        requires
            old(self).inv(),
        ensures
            final(self).inv(),
            final(self).spec_main() == old(self).spec_main(),
            final(self).spec_fallback() == old(self).spec_fallback(),
            final(self).spec_chords() == old(self).spec_chords(),
            final(self).spec_mapper().applied_levels() == old(self).spec_mapper().applied_levels(),
            r.switched == if final(self).spec_role() != old(self).spec_role() {
                Some(final(self).spec_role())
            } else {
                None::<Role>
            },
            r.switched is None ==> final(self).spec_mapper() == old(self).spec_mapper(),
            r.switched is Some ==> {
                &&& final(self).spec_mapper().spec_active_set() == final(self).live_program().default_set
                &&& final(self).spec_mapper().spec_active_layers().len() == 0
            },
            ({
                let chords = old(self).spec_chords();
                let acc = eval_upto(
                    chords,
                    prev_of(old(self).spec_chord_states().spec_states(), chords.len() as int),
                    old(self).spec_chord_states().spec_fallback_base(),
                    LogicalFrame::of(state),
                    chords.len() as int,
                );
                &&& final(self).spec_chord_states().spec_fallback_base() == acc.base
                &&& final(self).spec_role() == if acc.base || acc.hold {
                    Role::Fallback
                } else {
                    Role::Main
                }
                &&& r.execute@.len() == acc.execute.len()
                &&& forall|j: int|
                    0 <= j < acc.execute.len() ==> exec_of(#[trigger] r.execute@[j], chords[acc.execute[j]])
                &&& forall|b: Button|
                    #[trigger] r.frame.held(b) == (LogicalFrame::of(state).held(b) && !acc.consumed.contains(b))
                &&& r.frame.spec_state().left_trigger == state.left_trigger
                &&& r.frame.spec_state().right_trigger == state.right_trigger
            }),
    {
        let frame = LogicalFrame::new(state);
        let list = match &self.chords {
            Some(c) => c,
            None => &self.no_chords,
        };
        let outcome = self.chord_states.eval(list, &frame);
        let ChordOutcome { consumed, role, execute } = outcome;
        let switched = if role != self.role {
            self.role = role;
            let prog = program_for(&self.role, &self.main, &self.fallback, &self.empty);
            self.mapper.switch_program(prog);
            Some(role)
        } else {
            None
        };
        let masked = frame.masked(consumed.as_slice());
        ChordStep { frame: masked, execute, switched }
    }

    /// The program driving the live role.
    pub fn program(&self) -> (p: &Program)
        requires
            self.inv(),
        ensures
            *p == self.live_program(),
    {
        program_for(&self.role, &self.main, &self.fallback, &self.empty)
    }

    /// The binding that wins for `source` in the live program's active set and layer stack (what
    /// the analog side evaluates the source's virtual buttons against).
    pub fn live_binding(&self, source: &InputSource) -> (r: Option<&CompiledBinding>)
        requires
            self.inv(),
        ensures
            ({
                let prog = self.live_program();
                let m = self.spec_mapper();
                match resolve_in(prog.sets@[m.spec_active_set().0 as int], m.spec_active_layers(), *source) {
                    Some((b, _)) => r == Some(&b),
                    None => r is None,
                }
            }),
    {
        let program = program_for(&self.role, &self.main, &self.fallback, &self.empty);
        let set = program.set(&self.mapper.active_set());
        proof {
            self.mapper.lemma_active_layers_exist(*program);
        }
        match self.mapper.resolve(set, source) {
            Some((b, _)) => Some(b),
            None => None,
        }
    }

    /// One mapper tick on a (chord-masked) frame against the live program, given the analog
    /// side's virtual buttons; then the layer-view diff.
    pub fn map_frame(
        &mut self,
        frame: &LogicalFrame,
        virt: &SourceMap<VirtualButtons>,
        now: Tick,
        out: &mut Vec<OutputEvent>,
        haptics: &mut Vec<HapticReq>,
    ) -> (r: LayerViewChanges)
        requires
            old(self).inv(),
            now.0 <= u64::MAX - TAP_MS,
        ensures
            final(self).inv(),
            final(self).spec_main() == old(self).spec_main(),
            final(self).spec_fallback() == old(self).spec_fallback(),
            final(self).spec_chords() == old(self).spec_chords(),
            final(self).spec_role() == old(self).spec_role(),
            final(self).spec_chord_states() == old(self).spec_chord_states(),
            ({
                let m = old(self).spec_mapper();
                let acc = tick_upto(
                    old(self).live_program().sets@[m.spec_active_set().0 as int],
                    m.spec_active_layers(),
                    m.act_table(),
                    *frame,
                    *virt,
                    now.0,
                    N_SOURCES as int,
                );
                &&& final(out)@ == old(out)@ + reconcile_events(
                    m.applied_levels(),
                    final(self).spec_mapper().applied_levels(),
                )
                &&& final(haptics)@ == old(haptics)@ + acc.haptics
                &&& levels_add(no_levels(), final(self).spec_mapper().applied_levels(), acc.fired)
                &&& final(self).spec_mapper().act_table() == acc.acts
                &&& final(self).spec_mapper().spec_active_set() == next_set(m.spec_active_set(), acc.ops, m.armed())
                &&& final(self).spec_mapper().persistent() == next_persistent(m.persistent(), acc.ops, m.armed())
                &&& final(self).spec_mapper().held() == next_held(m.held(), acc.ops, m.armed(), *frame)
                &&& final(self).spec_mapper().armed() == next_armed(m.armed(), acc.ops, *frame)
            }),
    {
        let program = program_for(&self.role, &self.main, &self.fallback, &self.empty);
        self.mapper.tick(frame, virt, now, program, out, haptics);
        emit_layer_view(&self.mapper, program, &mut self.view)
    }

    /// The controller went away (its transport is alive): release every output so nothing sticks.
    pub fn on_disconnected(&mut self, out: &mut Vec<OutputEvent>)
        requires
            old(self).inv(),
        ensures
            final(self).inv(),
            final(out)@ == old(out)@ + reconcile_events(
                old(self).spec_mapper().applied_levels(),
                crate::mapper::no_levels(),
            ),
            final(self).spec_mapper().applied_levels() == crate::mapper::no_levels(),
            final(self).spec_main() == old(self).spec_main(),
            final(self).spec_fallback() == old(self).spec_fallback(),
            final(self).spec_chords() == old(self).spec_chords(),
            final(self).spec_role() == old(self).spec_role(),
            final(self).spec_chord_states() == old(self).spec_chord_states(),
            final(self).spec_mapper().spec_active_set() == old(self).spec_mapper().spec_active_set(),
            final(self).spec_mapper().persistent() == old(self).spec_mapper().persistent(),
            final(self).spec_mapper().held() == old(self).spec_mapper().held(),
    {
        self.mapper.release_all(out);
    }

    /// Handle one control message; `true` asks the loop to stop. Applying (or clearing) a program
    /// that drives the live role — the live role's own, or the other role's while the live role's
    /// slot is empty — re-seeds the mapper for whatever program now drives the role; replacing the
    /// chords keeps the persistent role base.
    pub fn apply_control(&mut self, msg: Control) -> (stop: bool)
        requires
            old(self).inv(),
            msg matches Control::Apply { program, .. } ==> slot_ok(program),
        ensures
            final(self).inv(),
            stop == (msg is Stop),
            final(self).spec_role() == old(self).spec_role(),
            msg matches Control::Apply { program, role } ==> {
                &&& (role == Role::Main ==> final(self).spec_main() == program && final(self).spec_fallback()
                    == old(self).spec_fallback())
                &&& (role == Role::Fallback ==> final(self).spec_fallback() == program
                    && final(self).spec_main() == old(self).spec_main())
            },
            msg matches Control::SetChords(c) ==> final(self).spec_chord_states().spec_fallback_base()
                == old(self).spec_chord_states().spec_fallback_base(),
            msg matches Control::Apply { role, .. } ==> {
                let own_empty = match old(self).spec_role() {
                    Role::Main => final(self).spec_main() is None,
                    Role::Fallback => final(self).spec_fallback() is None,
                };
                if role == old(self).spec_role() || own_empty {
                    &&& final(self).spec_mapper().spec_active_set() == final(self).live_program().default_set
                    &&& final(self).spec_mapper().spec_active_layers().len() == 0
                    &&& final(self).spec_mapper().applied_levels() == old(self).spec_mapper().applied_levels()
                } else {
                    final(self).spec_mapper() == old(self).spec_mapper()
                }
            },
            !(msg is Apply) ==> final(self).spec_mapper() == old(self).spec_mapper(),
    {
        match msg {
            Control::Apply { program, role: target } => {
                match target {
                    Role::Main => {
                        self.main = program;
                    },
                    Role::Fallback => {
                        self.fallback = program;
                    },
                }
                let own_empty = match self.role {
                    Role::Main => self.main.is_none(),
                    Role::Fallback => self.fallback.is_none(),
                };
                if self.role == target || own_empty {
                    let prog = program_for(&self.role, &self.main, &self.fallback, &self.empty);
                    self.mapper.switch_program(prog);
                } else {
                    assert(self.live_program() == old(self).live_program());
                }
                false
            },
            Control::SetChords(c) => {
                let base = self.chord_states.fallback_base();
                self.chords = c;
                let list = match &self.chords {
                    Some(c) => c,
                    None => &self.no_chords,
                };
                self.chord_states = Chords::new(list, base);
                false
            },
            Control::Stop => true,
        }
    }
}

/// Tone lengths: a short tone plays 30 ms, a long one 100 ms.
pub proof fn law_tone_lengths(t: Tone)
    ensures
        spec_tone_dur_ms(t) == (match t {
            Tone::ShortLow | Tone::ShortMedium | Tone::ShortHigh => 30u16,
            Tone::LongLow | Tone::LongMedium | Tone::LongHigh => 100u16,
        }),
{
}

/// An effect's notes come in pattern order, the first on arrival; a later note never starts while
/// the tone before it still plays: it waits that tone's whole length plus the pattern's gap
/// (40 ms in a double, 30 ms in a triple), and a click (felt, not heard) is followed after the gap
/// alone (50 ms in a double, 40 ms in a triple).
pub proof fn law_expand_waits_out_each_note(effect: Effect)
    ensures
        spec_expand(effect).len() >= 1,
        spec_expand(effect)[0].interval_ms == 0,
        forall|i: int|
            1 <= i < spec_expand(effect).len() ==> match #[trigger] spec_expand(effect)[i - 1].note {
                Note::Audio(t) => spec_expand(effect)[i].interval_ms >= spec_tone_dur_ms(t) + 30,
                _ => true,
            },
        effect matches Effect::AudioTriple(a, b, c) ==> {
            &&& spec_expand(effect).len() == 3
            &&& spec_expand(effect)[0].note == Note::Audio(a)
            &&& spec_expand(effect)[1].note == Note::Audio(b)
            &&& spec_expand(effect)[2].note == Note::Audio(c)
            &&& spec_expand(effect)[1].interval_ms == spec_tone_dur_ms(a) + 30
            &&& spec_expand(effect)[2].interval_ms == spec_tone_dur_ms(b) + 30
        },
        effect matches Effect::AudioDouble(a, b) ==> {
            &&& spec_expand(effect).len() == 2
            &&& spec_expand(effect)[0].note == Note::Audio(a)
            &&& spec_expand(effect)[1].note == Note::Audio(b)
            &&& spec_expand(effect)[1].interval_ms == spec_tone_dur_ms(a) + 40
        },
        effect matches Effect::HapticDouble(a, b) ==> {
            &&& spec_expand(effect).len() == 2
            &&& spec_expand(effect)[0].note == Note::Haptic(a)
            &&& spec_expand(effect)[1].note == Note::Haptic(b)
            &&& spec_expand(effect)[1].interval_ms == 50
        },
        effect matches Effect::HapticTriple(a, b, c) ==> {
            &&& spec_expand(effect).len() == 3
            &&& spec_expand(effect)[0].note == Note::Haptic(a)
            &&& spec_expand(effect)[1].note == Note::Haptic(b)
            &&& spec_expand(effect)[2].note == Note::Haptic(c)
            &&& spec_expand(effect)[1].interval_ms == 40
            &&& spec_expand(effect)[2].interval_ms == 40
        },
        effect matches Effect::Haptic(a) ==> spec_expand(effect) == seq![SeqNote { interval_ms: 0, note: Note::Haptic(a) }],
        effect matches Effect::Audio(a) ==> spec_expand(effect) == seq![SeqNote { interval_ms: 0, note: Note::Audio(a) }],
        effect matches Effect::Chirp(s) ==> spec_expand(effect) == seq![SeqNote { interval_ms: 0, note: Note::Chirp(s) }],
{
}

} // verus!
