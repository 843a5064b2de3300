# zerotrace-agent

The decision logic of a host monitoring agent, written in Rust and verified with Verus.

- `src/metric/`: what is read from `/proc`, and the counters reported of it. Percentages are kept
  as exact ratios.
- `src/runtime/`: bounded queues with back pressure, pipelines of sources, processors and
  reporters, blueprints that compose them by name, and the proof that a whole pipeline delivers
  every accepted batch once and in order (`delivery.rs`).
- `src/agent/`: the agent's state and identity, which interfaces it captures on, how its
  dispatchers, collectors and senders are set up (`assembly.rs` puts it all together), the order
  in which they are started and stopped, its launch and its main loop.
- `src/debug/`: the debug protocol on the agent's side, and the beacons by which agents make
  themselves known.
- `src/ctl/`: the same protocol on the controller's side, and the proof that the two fit.
- `src/pid_file.rs`, `src/tasks.rs`: the pid file, and the workspace's chores.
- `src/text.rs`, `src/bytes.rs`, `src/registry.rs`, `src/sort.rs`: what the others are built on.

`app/` is the program around the library: arguments, sockets, files, threads and tasks. It is
ordinary Rust. `tests/` runs the library.

What the library takes from outside crates stands behind a few functions whose contracts are
believed rather than proved: compression (`zstd`, `flate2`), regular expressions (`regex`) and the
encoding of beacons (`bincode`). Each says in its comment what is claimed of the crate.
