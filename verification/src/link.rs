//! The network link's decisions: the uplink handshake (a versioned `Hello` must open every
//! connection) and the latest-wins gate on controller snapshots arriving over datagrams.

use vstd::prelude::*;

use crate::session::{elapsed, ReportKind};

verus! {

/// The wire protocol version; a client announces it first and the server drops a mismatch.
pub const PROTOCOL_VERSION: u16 = 1;

/// The kind of an uplink message (what the server decides on; payloads travel alongside).
#[derive(Debug, Clone, Copy, PartialEq, Eq, Structural)]
pub enum UplinkKind {
    /// The handshake, carrying the client's protocol version.
    Hello { version: u16 },
    /// A keep-alive.
    Ping,
    /// Apply (or clear) a program for a role.
    Apply,
    /// Replace the global config.
    SetGlobals,
    /// A device lifecycle event.
    Event,
}

/// What the server does with an uplink message.
#[derive(Debug, Clone, Copy, PartialEq, Eq, Structural)]
pub enum ServeAction {
    /// Close the connection (bad version, or data before the handshake).
    Drop,
    /// The handshake succeeded: the client is connected.
    Greet,
    /// Nothing to do (a keep-alive).
    Ignore,
    /// Pass the payload on (config to the control channel, events to the frame stream).
    Forward,
}

/// The server's decision on one uplink message, given whether the connection has been greeted.
pub open spec fn spec_serve(greeted: bool, msg: UplinkKind) -> ServeAction {
    match msg {
        UplinkKind::Hello { version } => if version != PROTOCOL_VERSION {
            ServeAction::Drop
        } else {
            ServeAction::Greet
        },
        _ => if !greeted {
            ServeAction::Drop
        } else if msg == UplinkKind::Ping {
            ServeAction::Ignore
        } else {
            ServeAction::Forward
        },
    }
}

/// Decide on one uplink message: a `Hello` of the wrong version, or anything before the first
/// `Hello`, drops the connection; a `Ping` is a no-op; config and events are passed on.
pub fn serve(greeted: bool, msg: UplinkKind) -> (a: ServeAction)
    ensures
        a == spec_serve(greeted, msg),
{
    match msg {
        UplinkKind::Hello { version } => {
            if version != PROTOCOL_VERSION {
                ServeAction::Drop
            } else {
                ServeAction::Greet
            }
        },
        UplinkKind::Ping => if !greeted {
            ServeAction::Drop
        } else {
            ServeAction::Ignore
        },
        _ => if !greeted {
            ServeAction::Drop
        } else {
            ServeAction::Forward
        },
    }
}

/// Nothing is passed on before a successful handshake.
pub proof fn law_nothing_before_hello(msg: UplinkKind)
    ensures
        spec_serve(false, msg) != ServeAction::Forward,
        spec_serve(false, msg) != ServeAction::Ignore,
{
}

/// Latest-wins filtering of snapshot sequence numbers: a snapshot is taken only if its sequence
/// number is above every number taken so far; a new connection starts with a clean slate.
#[derive(Debug, Clone, Copy, PartialEq, Eq, Structural)]
pub struct SeqGate {
    last: Option<u32>,
}

impl SeqGate {
    pub closed spec fn spec_last(self) -> Option<u32> {
        self.last
    }

    /// A gate that passes the first snapshot.
    pub fn new() -> (g: SeqGate)
        ensures
            g.spec_last() is None,
    {
        SeqGate { last: None }
    }

    /// Forget the last sequence number (a connection boundary).
    pub fn reset(&mut self)
        ensures
            final(self).spec_last() is None,
    {
        self.last = None;
    }

    /// Whether a snapshot with `seq` passes; a passing one becomes the latest.
    pub fn accept(&mut self, seq: u32) -> (pass: bool)
        ensures
            pass == match old(self).spec_last() {
                Some(s) => seq > s,
                None => true,
            },
            final(self).spec_last() == if pass {
                Some(seq)
            } else {
                old(self).spec_last()
            },
    {
        let pass = match self.last {
            Some(s) => seq > s,
            None => true,
        };
        if pass {
            self.last = Some(seq);
        }
        pass
    }
}

/// How often the forwarder sends a keep-alive over the otherwise idle stream, so a dead server is
/// noticed.
pub const PING_INTERVAL_MS: u64 = 1000;

/// Which channel a device report takes to the server: snapshots ride datagrams (latest wins, loss
/// self-heals), lifecycle reports the reliable stream (never dropped).
#[derive(Debug, Clone, Copy, PartialEq, Eq, Structural)]
pub enum Route {
    Datagram,
    Stream,
}

/// The channel a report takes.
pub fn route(report: ReportKind) -> (r: Route)
    ensures
        r == if report == ReportKind::State {
            Route::Datagram
        } else {
            Route::Stream
        },
{
    match report {
        ReportKind::State => Route::Datagram,
        _ => Route::Stream,
    }
}

/// Whether a keep-alive is due at `now`, the last one having gone at `last`.
pub fn ping_due(now: u64, last: u64) -> (r: bool)
    ensures
        r == (elapsed(now, last) >= PING_INTERVAL_MS),
{
    now >= last && now - last >= PING_INTERVAL_MS
}

/// Why the forwarder stops pumping its current connection.
#[derive(Debug, Clone, Copy, PartialEq, Eq, Structural)]
pub enum PumpEnd {
    /// The forwarder is stopping.
    Stop,
    /// The connection must be dropped and dialled again (the local device went away, or the
    /// stream broke).
    Broke,
}

/// Whether the pump goes on: a stop ends it, the local device going away drops the link (so the
/// server waits for it) instead of forwarding nothing.
pub fn pump_state(running: bool, detached: bool) -> (r: Option<PumpEnd>)
    ensures
        r == if !running {
            Some(PumpEnd::Stop)
        } else if detached {
            Some(PumpEnd::Broke)
        } else {
            None::<PumpEnd>
        },
{
    if !running {
        Some(PumpEnd::Stop)
    } else if detached {
        Some(PumpEnd::Broke)
    } else {
        None
    }
}

/// What the forwarder does while its link is down.
#[derive(Debug, Clone, Copy, PartialEq, Eq, Structural)]
pub enum Redial {
    /// Stop: the forwarder is stopping.
    Stop,
    /// Wait: the local device is gone, so there is nothing to forward.
    Wait,
    /// Dial the server again.
    Dial,
}

/// The next step while the link is down.
pub fn redial(running: bool, detached: bool) -> (r: Redial)
    ensures
        r == if !running {
            Redial::Stop
        } else if detached {
            Redial::Wait
        } else {
            Redial::Dial
        },
{
    if !running {
        Redial::Stop
    } else if detached {
        Redial::Wait
    } else {
        Redial::Dial
    }
}

} // verus!
