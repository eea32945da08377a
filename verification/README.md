# Kelp

Kelp is a grid of light nodes that agree on one shared state over half-duplex
serial links. This crate holds the logic of the nodes, of the tool that brings
new firmware onto them, and of a simulator, together with proofs that it does
what its contracts say.

## Layout

- `src/trickle.rs`, `src/rng.rs`, `src/time.rs`: when a node repeats its state,
  and how it weighs a state that it hears against its own.
- `src/proto.rs`, `src/wire.rs`, `src/link.rs`, `src/chunk.rs`, `src/packet.rs`,
  `src/framer.rs`: the shared state, and how it travels over a link.
- `src/bootloader.rs`, `src/node.rs`: what a node makes of what it hears.
- `src/host.rs`, `src/flasher.rs`: the tool that brings firmware onto the nodes.
- `src/hal/`: LEDs, serial ports, clock and setup of a node.
- `src/sim/`: the simulated network and its viewer.
- `app/`: the programs around the library. `app/firmware/` is for the nodes.
- `tests/`: the library from outside.
