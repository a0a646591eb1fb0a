# nucleation

A verified library of Minecraft schematic data tools, written in Verus.
Every function in `src/` carries a `requires`/`ensures` contract, and Verus
proves them.

## Layout

- `src/nbt.rs`: NBT values and compounds. A compound is viewed as a map
  from key to value.
- `src/loss.rs`: the loss report. A lossy conversion records what it could
  not keep, with version, kind, severity and message.
- `src/dataconverter/`: the version-by-version data converter.
  - `registry.rs` holds the registrations and the conversion entry points.
  - `dispatch.rs` runs converters and custom walkers.
  - `walker.rs` holds the generic walkers.
  - `versions/` holds one module per data version. Each converter states
    exactly what it makes of a compound and what it reports.
- `src/design.rs`: value types of the composition document (bus layers,
  width maps, reports) and the pure planning they need: straight runs, level
  shifts, bit mapping.
- `src/design_corridor.rs`: corridor geometry. It covers the retry ladder,
  blocker diagnosis, the turn-compressed chain, and failure text.
- `src/design_decay.rs`: the redstone signal-decay ledger and the dust-debt
  measure.
- `src/float.rs`, `src/float_add.rs`: IEEE-754 narrowing, widening and
  addition on bit patterns. The NBT float tags are held this way.
- `src/json.rs`, `src/text.rs`: JSON text components, through serde_json,
  and the text helpers the messages are built with.
- `tests/`: ordinary Rust tests run against the compiled library.

## What is not here

- The composition document itself is not in this library:
  - the `Design` type, with its cells, instances, port modes, bus routing,
    moves and rule checks;
  - its route planner.
  They need a schematic model, a cell I/O contract resolver, a routing engine
  and a corridor search engine (`pnr_core`), and none of these is part of
  this project.
- The trial-spawner preset collapse of data version 4061 is not here either.
  Its preset table comes from SNBT templates parsed into trees of
  floating-point tags. This library holds NBT floats only as bit patterns,
  and it has no way to bring such a tree in.
