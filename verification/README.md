# sail

The decision logic of a distributed query engine and its Iceberg table format, verified with
Verus. Every function in `src/` states what it returns or changes, and the proofs are part of the
source.

- `src/execution` assigns tasks to workers, tracks streams and worker slots, and encodes task
  definitions.
- `src/iceberg` commits, scans, loads, rewrites, compacts and expires tables.
- `src/catalog` looks up tables and keeps temporary views.
- `src/data_source` splits files at record boundaries.
- `src/cli` decides how servers start and stop.
- The other modules of `src/` hold what these share: texts, numbers, ordered maps, locations.

Properties that relate several functions are the public proof functions whose names begin with
`law_`. Calls into other crates stand behind small functions marked as external bodies; each says
in its comment what is taken on trust.

Whatever reads, writes, waits or awaits is in `app/`: it carries out what the library decides and
hands back what came of it. `tests/` runs the library on concrete values.
