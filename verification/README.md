# pulsive

A reactive simulation engine in the Elm style (model, update, command), with
tick-based time, a seeded random generator, data-driven entities and effects, a
journal for replay and audit, rollback and client-side prediction, and a hub that
runs core groups and detects and resolves conflicting writes.

The library under `src/` is written and proved with Verus: every public function
states in its contract what it returns or changes, and the properties that span
several calls are stated as proof functions.

- `src/` — the verified library: values and entities, expressions, their
  evaluator and effects,
  the runtime (message queue, handlers, effect collection and execution), the
  journal with its readable text export, auditor and replayer, write sets, partitioning, conflict detection and
  resolution, commits, the hub with its core groups and snapshots, the input
  buffer, prediction, reconciliation and interpolation, rollback history, content
  definitions and their loader, and the records used for persistence.
- `app/` — the host side: floating-point arithmetic (the numeric steps of the
  evaluator and the runtime, float draws, display of numbers, interpolation of
  numbers, balance ratios), RON, JSON and CSV through serde (content loading,
  journal export), state comparison with tolerances, and the network transport
  interfaces.
- `tests/` — tests of the library.

Numbers are held by the library as the 64 bits of their IEEE-754 double
encoding; the steps that compute on them (arithmetic and comparisons, float draws,
display texts, the weighted choice) are handed to the library as functions by the
host (see `src/evaluate.rs` and `app/evaluate.rs`).
