# deckhand

A controller-mapping engine for Steam controllers: it turns controller reports into keyboard,
mouse and gamepad output through compiled profiles (action sets, layers, activators, chords),
and can forward a controller over the network to another machine.

The decision-making core is a Verus-verified library (`src/`):

- `program`, `profile`, `compile` — the authoring model of a profile and its compilation into
  the runtime program (names resolved to ids; every dangling reference reported).
- `mapper` — the per-tick mapping pass: binding resolution over the layer stack, activators
  (regular, start, release, long, double; toggle, turbo, haptics), layer and action-set changes,
  and output reconciliation.
- `chords` — global chords that switch the profile role or run a command.
- `runtime` — the mapping loop's state machine, feedback presets and their schedule.
- `session` — a controller read session's decisions: presence, battery, keep-alive, config
  re-application and the rumble re-fire cadence.
- `codec`, `link`, `handle`, `message`, `forwarder` — frame codec, network handshake, snapshot filter and uplink routing, input/output selection grammar, and the forwarder window's status rules.

`tests/` exercises the library on concrete scenarios. `app/` holds what the verifier does not
see: device and socket I/O, threads, RON files, the floating-point analog behaviors, and the
forwarder window.
