# superconfig

A configuration library: a builder that merges configuration files,
embedded TOML text and environment variables through `figment`, with
numbered debug messages about each step; a typed, handle-based registry;
array merging with `_add` / `_remove` keys; empty-value filtering; and
wildcard discovery of configuration files with merge orders.

The library in `src/` is written in Verus. Its public functions carry
contracts that Verus proves; the laws that the library keeps (the merge and
sort orders, what a registry read gives after a write, the filters) are
public proof functions beside the code they speak of. Calls into `figment`,
`globset` and the clock go through small trusted wrappers whose contracts
say what those crates promise.

The registry keeps its entries in vstd's `HashMapWithView` and changes them
through `&mut self`, so that every operation has a contract over the map it
holds; the process-wide registry in `app/` shares one behind a `Mutex`.
The `dashmap` and `parking_lot` entries in `Cargo.toml` are not used.

- `src/` — the verified library
- `tests/` — tests of the library, run against the real outside crates
- `app/` — the parts that read files, directories and the environment,
  implement `figment`'s `Provider` trait, hold the process-wide registry,
  and serialise values with `serde`
