//! A controller read session's decisions: what each device report means for the connection and
//! battery state, when the device config is re-applied, when the keep-alive is due, and when the
//! rumble level is (re-)issued on the bound device. The reader thread polls the device, performs
//! the actions and hands back the events.

use vstd::prelude::*;

verus! {

/// How often the keep-alive (lizard mode off) is re-asserted, where the device needs it.
pub const KEEPALIVE_MS: u64 = 3000;
/// How often a pad actuator's pulse train is re-issued while the rumble is on (just under the
/// train's own length, so trains are contiguous).
pub const PULSE_REFIRE_MS: u64 = 220;
/// How often the Deck's motor burst is re-issued while the rumble is on.
pub const DECK_REFIRE_MS: u64 = 500;
/// How often the Triton's motor command is re-issued while the rumble is on.
pub const TRITON_REFIRE_MS: u64 = 400;

/// The controller families, by how their rumble is driven.
#[derive(Debug, Clone, Copy, PartialEq, Eq, Structural)]
pub enum DeviceKind {
    /// Trackpad actuators driven by pulse trains.
    Gordon,
    /// The Steam Deck's dual motors.
    Neptune,
    /// The Triton's dual motors.
    Triton,
}

/// A device report, as far as the session tells them apart.
#[derive(Debug, Clone, Copy, PartialEq, Eq, Structural)]
pub enum ReportKind {
    State,
    Connected,
    Disconnected,
    /// A battery reading (percent).
    Battery(u8),
}

/// What a report calls for besides forwarding it.
#[derive(Debug, Clone, Copy, PartialEq, Eq, Structural)]
pub struct ReportActions {
    /// Publish the controller's presence.
    pub connected: Option<bool>,
    /// Re-apply the device config (the controller resets it when it re-joins).
    pub apply_config: bool,
    /// Publish a changed battery charge.
    pub battery: Option<u8>,
}

/// What one reader lap calls for.
#[derive(Debug, Clone, Copy, PartialEq, Eq, Structural)]
pub struct LapActions {
    /// Re-assert the keep-alive.
    pub keepalive: bool,
    /// Issue the current rumble level on the device.
    pub fire_rumble: bool,
}

/// `now - since`, or 0 when the clock reads earlier.
pub open spec fn elapsed(now: u64, since: u64) -> int {
    if now >= since {
        now - since
    } else {
        0
    }
}

/// The re-fire cadence of a device family's rumble.
pub open spec fn refire_ms(kind: DeviceKind) -> u64 {
    match kind {
        DeviceKind::Gordon => PULSE_REFIRE_MS,
        DeviceKind::Neptune => DECK_REFIRE_MS,
        DeviceKind::Triton => TRITON_REFIRE_MS,
    }
}

/// The state one read session carries between reports and laps (times in ms of the reader's
/// clock).
pub struct Session {
    pub kind: DeviceKind,
    pub keepalive: bool,
    pub last_keepalive: u64,
    pub last_haptic: u64,
    /// The latest rumble level `(strong, weak)`.
    pub level: (u16, u16),
    /// The last published battery charge (kept across sessions by the caller).
    pub battery: Option<u8>,
}

/// Whether the rumble fires this lap: a level change fires at once on the motor devices (their
/// bursts have no length); a non-zero level re-fires once its cadence has elapsed; the pulse
/// trains fire on the cadence only, so a sustained rumble stays one contiguous drive.
pub open spec fn rumble_fires(kind: DeviceKind, level: (u16, u16), changed: bool, now: u64, last: u64) -> bool {
    let due = !(level.0 == 0 && level.1 == 0) && elapsed(now, last) >= refire_ms(kind);
    match kind {
        DeviceKind::Gordon => due,
        _ => changed || due,
    }
}

impl Session {
    /// A session on a device of `kind` opened at `now`: the controller is presumed present, so its
    /// presence is published and its config applied; no rumble is playing.
    pub fn start(kind: DeviceKind, keepalive: bool, battery: Option<u8>, now: u64) -> (r: (Session, ReportActions))
        ensures
            r.0.kind == kind,
            r.0.keepalive == keepalive,
            r.0.last_keepalive == now,
            r.0.last_haptic == now,
            r.0.level == (0u16, 0u16),
            r.0.battery == battery,
            r.1 == (ReportActions { connected: Some(true), apply_config: true, battery: None }),
    {
        (
            Session { kind, keepalive, last_keepalive: now, last_haptic: now, level: (0, 0), battery },
            ReportActions { connected: Some(true), apply_config: true, battery: None },
        )
    }

    /// Decide on one device report: a `Connected` publishes presence and re-applies the config, a
    /// `Disconnected` publishes absence, a battery reading is published only when it changed.
    pub fn on_report(&mut self, report: ReportKind) -> (a: ReportActions)
        ensures
            final(self).kind == old(self).kind,
            final(self).keepalive == old(self).keepalive,
            final(self).last_keepalive == old(self).last_keepalive,
            final(self).last_haptic == old(self).last_haptic,
            final(self).level == old(self).level,
            a == match report {
                ReportKind::Connected => ReportActions { connected: Some(true), apply_config: true, battery: None },
                ReportKind::Disconnected => ReportActions { connected: Some(false), apply_config: false, battery: None },
                ReportKind::Battery(p) => ReportActions {
                    connected: None,
                    apply_config: false,
                    battery: if old(self).battery == Some(p) {
                        None
                    } else {
                        Some(p)
                    },
                },
                ReportKind::State => ReportActions { connected: None, apply_config: false, battery: None },
            },
            final(self).battery == match report {
                ReportKind::Battery(p) => Some(p),
                _ => old(self).battery,
            },
    {
        match report {
            ReportKind::Connected => ReportActions { connected: Some(true), apply_config: true, battery: None },
            ReportKind::Disconnected => ReportActions { connected: Some(false), apply_config: false, battery: None },
            ReportKind::Battery(p) => {
                let changed = match self.battery {
                    Some(q) => q != p,
                    None => true,
                };
                self.battery = Some(p);
                ReportActions { connected: None, apply_config: false, battery: if changed { Some(p) } else { None } }
            },
            ReportKind::State => ReportActions { connected: None, apply_config: false, battery: None },
        }
    }

    /// One reader lap at `now`, with the rumble levels received since the last lap (the latest
    /// wins): whether the keep-alive is due, and whether the rumble is issued.
    pub fn lap(&mut self, now: u64, received: &Vec<(u16, u16)>) -> (a: LapActions)
        ensures
            final(self).kind == old(self).kind,
            final(self).keepalive == old(self).keepalive,
            final(self).battery == old(self).battery,
            final(self).level == if received@.len() > 0 {
                received@.last()
            } else {
                old(self).level
            },
            a.keepalive == (old(self).keepalive && elapsed(now, old(self).last_keepalive) >= KEEPALIVE_MS),
            final(self).last_keepalive == if a.keepalive {
                now
            } else {
                old(self).last_keepalive
            },
            a.fire_rumble == rumble_fires(
                old(self).kind,
                final(self).level,
                received@.len() > 0,
                now,
                old(self).last_haptic,
            ),
            final(self).last_haptic == if a.fire_rumble {
                now
            } else {
                old(self).last_haptic
            },
    {
        let since_keepalive = if now >= self.last_keepalive {
            now - self.last_keepalive
        } else {
            0
        };
        let keepalive = self.keepalive && since_keepalive >= KEEPALIVE_MS;
        if keepalive {
            self.last_keepalive = now;
        }
        let changed = received.len() > 0;
        if changed {
            self.level = received[received.len() - 1];
        }
        let idle = self.level.0 == 0 && self.level.1 == 0;
        let since_haptic = if now >= self.last_haptic {
            now - self.last_haptic
        } else {
            0
        };
        let cadence = match self.kind {
            DeviceKind::Gordon => PULSE_REFIRE_MS,
            DeviceKind::Neptune => DECK_REFIRE_MS,
            DeviceKind::Triton => TRITON_REFIRE_MS,
        };
        let due = !idle && since_haptic >= cadence;
        let fire = match self.kind {
            DeviceKind::Gordon => due,
            _ => changed || due,
        };
        if fire {
            self.last_haptic = now;
        }
        LapActions { keepalive, fire_rumble: fire }
    }
}

} // verus!
