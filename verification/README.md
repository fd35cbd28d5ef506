# moza-rev

Drives the RPM light bar of a Moza steering wheel from the telemetry of racing
games, on Linux. `src/` is a library verified with Verus: the packets of each
game, the engine state and lights that follow from them, the serial frames of the
wheelbase, the main loop, and the dialogue that turns a game's telemetry on.
`app/` is the program around it: command line, sockets, serial port, files.

- `src/wreckfest.rs`, `codemasters_legacy.rs`, `madness.rs`, `outgauge.rs`,
  `forza.rs`, `assetto_corsa.rs`, `assetto_corsa_competizione.rs`: packet formats.
- `src/listeners/`: from packets to engine states.
- `src/led.rs`, `src/moza.rs`: lights, and frames for the wheel.
- `src/runtime.rs`: the main loop as a state machine.
- `src/configure.rs` and below: what to show, ask and write for each game.
- `src/binary32.rs`, `wire.rs`, `text.rs`, `utf16.rs`, `json.rs`, `cli.rs`: what
  these are built on.

`configure` changes nothing by itself: every change needs a yes, and a file that
exists is copied to a `.bak` next to it first.
