# trop

Directory-keyed port reservations, verified with Verus.

A reservation ties a port to a directory (and an optional tag), with sticky
`project` and `task` metadata. Repeated reservations for a directory keep
their port, groups of services are reserved together, stale reservations are
pruned or expired, and allocations are printed for shells, `.env` files,
JSON or people.

## Layout

- `src/` — the verified library. Verus checks every function against its
  `requires` / `ensures` contract, except the few that call outside code
  (the home directory, the clock, `serde_json`, `libc` constants and
  `String::push`/`push_str`), whose contracts are trusted and say in their
  doc comments what they claim.
  - `port.rs`, `reservation.rs`, `database.rs`, `config.rs`, `tag_map.rs`:
    the data model; the store keeps keys and ports unique as a type invariant.
  - `allocator.rs`, `group.rs`: single and group port allocation.
  - `path/`: the component model of paths, normalization, relationships,
    symlink walks and resolution.
  - `operations/`: planning (reserve, release, migrate, groups, autoreserve,
    init), plan execution, cleanup and repository-based name inference.
  - `output/`: shell detection and the export, dotenv, JSON and human formats.
  - `ordering.rs`, `text.rs`: string and path orders, decimal rendering.
- `tests/` — tests of the library on concrete values.
- `app/` — the filesystem, environment, git, socket and serialization side:
  it asks the questions the library's plans and state machines pose and hands
  back the answers.

Laws the library promises (idempotent reservation and release, stable group
reallocation, cleanup partitions, normalization idempotence, sorted output,
path-relationship algebra) are stated as public proof functions next to the
code they describe.
