//! The engine control API's decisions: its run state, the staged input/output selection grammar,
//! and which runtime role a start brings up.
//!
//! The selection grammar is `auto|dongle|wired|<device-id>|host:port` for the input and
//! `local|host:port` for the output. The canonical token of each selection is what it is
//! displayed as, so a staged selection can be reported and passed straight back. Recognizing a
//! device id or a socket address is the device layer's and the network stack's business; those
//! answers are handed in.

use vstd::prelude::*;

verus! {

/// The engine's run state.
#[derive(Debug, Clone, Copy, PartialEq, Eq, Structural)]
pub enum Status {
    /// No loop running (freshly constructed, or stopped). No hardware held.
    Idle,
    /// Running the mapping loop with a bound device.
    Running,
    /// Running, but the bound device's transport went away — waiting to reacquire it.
    WaitingForDevice,
}

/// The run state of an engine: idle with no loop, waiting while the loop runs without its
/// device, else running.
pub fn run_state(running: bool, waiting: bool) -> (s: Status)
    ensures
        s == if !running {
            Status::Idle
        } else if waiting {
            Status::WaitingForDevice
        } else {
            Status::Running
        },
{
    if !running {
        Status::Idle
    } else if waiting {
        Status::WaitingForDevice
    } else {
        Status::Running
    }
}

/// How a controller is attached.
#[derive(Debug, Clone, Copy, PartialEq, Eq, Structural)]
pub enum Transport {
    UsbDongle,
    UsbWired,
}

/// A local controller selection named by a token (a pinned device id is the other kind).
#[derive(Debug, Clone, Copy, PartialEq, Eq, Structural)]
pub enum SelectToken {
    /// The first controller that streams frames.
    Auto,
    /// Restrict to a transport.
    Transport(Transport),
}

/// Whether `s` reads exactly `lit`.
pub fn str_is(s: &str, lit: &str) -> (r: bool)
    ensures
        r == (s@ == lit@),
{
    let n = s.unicode_len();
    if n != lit.unicode_len() {
        return false;
    }
    let mut i: usize = 0;
    while i < n
        invariant
            0 <= i <= n,
            n == s@.len(),
            n == lit@.len(),
            forall|j: int| 0 <= j < i ==> s@[j] == lit@[j],
        decreases n - i,
    {
        if s.get_char(i) != lit.get_char(i) {
            return false;
        }
        i += 1;
    }
    assert(s@ =~= lit@);
    true
}

/// The selection a token names, if it is one: `auto`/`a`, `dongle`/`d`, `wired`/`w`.
pub open spec fn spec_select_token(s: Seq<char>) -> Option<SelectToken> {
    if s == "auto"@ || s == "a"@ {
        Some(SelectToken::Auto)
    } else if s == "dongle"@ || s == "d"@ {
        Some(SelectToken::Transport(Transport::UsbDongle))
    } else if s == "wired"@ || s == "w"@ {
        Some(SelectToken::Transport(Transport::UsbWired))
    } else {
        None
    }
}

/// The selection a token names, if it is one (the short aliases `a`/`d`/`w` are accepted).
pub fn select_token(s: &str) -> (r: Option<SelectToken>)
    ensures
        r == spec_select_token(s@),
{
    if str_is(s, "auto") || str_is(s, "a") {
        Some(SelectToken::Auto)
    } else if str_is(s, "dongle") || str_is(s, "d") {
        Some(SelectToken::Transport(Transport::UsbDongle))
    } else if str_is(s, "wired") || str_is(s, "w") {
        Some(SelectToken::Transport(Transport::UsbWired))
    } else {
        None
    }
}

/// The canonical token a selection is displayed as.
pub fn token_text(t: SelectToken) -> (s: &'static str)
    ensures
        spec_select_token(s@) == Some(t),
        t == SelectToken::Auto ==> s@ == "auto"@,
        t == SelectToken::Transport(Transport::UsbDongle) ==> s@ == "dongle"@,
        t == SelectToken::Transport(Transport::UsbWired) ==> s@ == "wired"@,
{
    proof {
        lemma_tokens_distinct();
    }
    match t {
        SelectToken::Auto => "auto",
        SelectToken::Transport(Transport::UsbDongle) => "dongle",
        SelectToken::Transport(Transport::UsbWired) => "wired",
    }
}

/// Whether a selection admits a controller on `transport`: `auto` admits any, a transport token
/// only its own.
pub fn admits(select: SelectToken, transport: Transport) -> (r: bool)
    ensures
        r == match select {
            SelectToken::Auto => true,
            SelectToken::Transport(t) => t == transport,
        },
{
    match select {
        SelectToken::Auto => true,
        SelectToken::Transport(t) => t == transport,
    }
}

/// Whether an output spec names the local virtual devices (`local`/`l`).
pub fn output_is_local(s: &str) -> (r: bool)
    ensures
        r == (s@ == "local"@ || s@ == "l"@),
{
    str_is(s, "local") || str_is(s, "l")
}

/// What an input spec selects, most specific first.
#[derive(Debug, Clone, Copy, PartialEq, Eq, Structural)]
pub enum InputKind {
    /// A pinned device id.
    Device,
    /// A selection token.
    Token(SelectToken),
    /// A `host:port` to bind and receive a remote controller's frames on.
    Network,
    /// None of these.
    Unrecognized,
}

/// Classify an input spec: a full device id first, then a selection token, then a `host:port`
/// bind address. `is_device_id` and `is_socket_addr` say whether `s` parses as each.
pub fn classify_input(s: &str, is_device_id: bool, is_socket_addr: bool) -> (k: InputKind)
    ensures
        k == if is_device_id {
            InputKind::Device
        } else if spec_select_token(s@) is Some {
            InputKind::Token(spec_select_token(s@).unwrap())
        } else if is_socket_addr {
            InputKind::Network
        } else {
            InputKind::Unrecognized
        },
{
    if is_device_id {
        return InputKind::Device;
    }
    match select_token(s) {
        Some(t) => InputKind::Token(t),
        None => if is_socket_addr {
            InputKind::Network
        } else {
            InputKind::Unrecognized
        },
    }
}

/// Which runtime a start brings up.
#[derive(Debug, Clone, Copy, PartialEq, Eq, Structural)]
pub enum StartMode {
    /// Local input mapped to the local virtual devices.
    Local,
    /// Local input forwarded to a network server.
    Forwarder,
    /// A network client's input mapped to the local virtual devices.
    Server,
}

/// Why the engine cannot do what was asked yet.
#[derive(Debug, Clone, Copy, PartialEq, Eq, Structural)]
pub enum NotReady {
    /// Input and output cannot both be network endpoints.
    BothNetwork,
    /// Mapping locally needs a main program.
    NoMainProgram,
}

/// The runtime a start brings up for the staged input/output: local/local maps here, a network
/// output forwards this device's frames, a network input maps a remote client's frames; both
/// network is refused. Mapping here (local or server) needs a main program.
pub fn start_mode(input_network: bool, output_network: bool, has_main: bool) -> (r: Result<
    StartMode,
    NotReady,
>)
    ensures
        input_network && output_network ==> r == Err::<StartMode, NotReady>(NotReady::BothNetwork),
        !input_network && output_network ==> r == Ok::<StartMode, NotReady>(StartMode::Forwarder),
        !output_network && !has_main ==> r == Err::<StartMode, NotReady>(NotReady::NoMainProgram),
        !input_network && !output_network && has_main ==> r == Ok::<StartMode, NotReady>(StartMode::Local),
        input_network && !output_network && has_main ==> r == Ok::<StartMode, NotReady>(StartMode::Server),
{
    match (input_network, output_network) {
        (false, false) => if has_main {
            Ok(StartMode::Local)
        } else {
            Err(NotReady::NoMainProgram)
        },
        (false, true) => Ok(StartMode::Forwarder),
        (true, false) => if has_main {
            Ok(StartMode::Server)
        } else {
            Err(NotReady::NoMainProgram)
        },
        (true, true) => Err(NotReady::BothNetwork),
    }
}

/// A selection token displays as what parses back to it.
pub proof fn law_token_round_trip(t: SelectToken)
    ensures
        t == SelectToken::Auto ==> spec_select_token("auto"@) == Some(t),
        t == SelectToken::Transport(Transport::UsbDongle) ==> spec_select_token("dongle"@) == Some(t),
        t == SelectToken::Transport(Transport::UsbWired) ==> spec_select_token("wired"@) == Some(t),
{
    lemma_tokens_distinct();
}

proof fn lemma_tokens_distinct()
    ensures
        "dongle"@ != "auto"@,
        "dongle"@ != "a"@,
        "wired"@ != "auto"@,
        "wired"@ != "a"@,
        "wired"@ != "dongle"@,
        "wired"@ != "d"@,
{
    reveal_strlit("auto");
    reveal_strlit("a");
    reveal_strlit("dongle");
    reveal_strlit("d");
    reveal_strlit("wired");
    reveal_strlit("w");
    assert("dongle"@.len() == 6);
    assert("auto"@.len() == 4);
    assert("a"@.len() == 1);
    assert("wired"@.len() == 5);
    assert("d"@.len() == 1);
}

/// The selection grammar: `auto`/`a` select the first streaming controller, `dongle`/`d` the
/// dongle, `wired`/`w` the wired transport — each short alias names the same selection as its
/// long token.
pub proof fn law_selection_tokens()
    ensures
        spec_select_token("auto"@) == Some(SelectToken::Auto),
        spec_select_token("a"@) == Some(SelectToken::Auto),
        spec_select_token("dongle"@) == Some(SelectToken::Transport(Transport::UsbDongle)),
        spec_select_token("d"@) == Some(SelectToken::Transport(Transport::UsbDongle)),
        spec_select_token("wired"@) == Some(SelectToken::Transport(Transport::UsbWired)),
        spec_select_token("w"@) == Some(SelectToken::Transport(Transport::UsbWired)),
        spec_select_token("a"@) == spec_select_token("auto"@),
        spec_select_token("d"@) == spec_select_token("dongle"@),
        spec_select_token("w"@) == spec_select_token("wired"@),
{
    lemma_tokens_distinct();
    reveal_strlit("auto");
    reveal_strlit("a");
    reveal_strlit("dongle");
    reveal_strlit("d");
    reveal_strlit("wired");
    reveal_strlit("w");
    assert("d"@.len() == 1 && "a"@.len() == 1 && "w"@.len() == 1);
    assert("auto"@.len() == 4 && "dongle"@.len() == 6);
    assert("d"@[0] != "a"@[0]);
    assert("d"@ != "a"@);
    assert("w"@[0] != "a"@[0] && "w"@[0] != "d"@[0]);
    assert("w"@ != "a"@ && "w"@ != "d"@);
}

} // verus!
