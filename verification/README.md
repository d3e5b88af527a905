# specgraph

A verified library for SpecGraph OS: a typed graph of specifications,
requirements, actions, commits, validations and policies, and the rules that
keep it consistent. The public functions in `src/` carry Verus contracts
that state what they return or change, and Verus proves the code against
them; the laws that relate several functions stand as proof functions.

## Layout

- `src/` — the library, verified by Verus. Graph model and deltas (`model`,
  `keyed`), the ontology and its packs (`ontology`, `ontology_pack`,
  `pack_install`, `architecture_pack`), spec and repository projections
  (`spec`, `git`, `git_graph`, `module_graph`, `data_graph`, `issue_graph`),
  the operation contract and gate (`operation_abi`, `store_ops`), policies
  (`policy`), store checks (`store`, `store_checks`), impact analysis, drift,
  traces, code indexing and migration observation.
- `tests/` — tests run against the compiled library.
- `app/` — the unverified shell: file and store I/O, serialization, hashing
  and the replay loop, which calls the verified step functions.

Calls into `globset`, `time` and `uuid` stand behind a few trusted wrappers
whose contracts state what those crates document.
