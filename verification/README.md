# tupl_dp

The rule storage and rule engine of a multi-layer enforcement data plane, written in
Verus: the functions under `src/` carry contracts that Verus proves, except a few small
trusted wrappers around outside calls (listed below), whose contracts are assumed.

## Layout

- `src/bridge/` — rule families of the seven enforcement layers, rule instances,
  per-family tables with their indices, the bridge that holds one table per family,
  the decisions of the enforcement pipeline (layer, rule order, short-circuit verdict),
  of rule installation (where a rule is encoded, the per-layer tally) and the refresh
  schedule.
- `src/engine/` — rule metadata and scopes, match and action clauses, audit records
  and trails, bundle validation, execution constraints and retry policies, the rule
  table with its indexes and decision cache, the registry of deployed versions, and
  the registry of rule versions with its lifecycle transitions (deactivation and
  revocation over the registry and the rule table together) and conflict detection,
  and the routing of requests during a rollout.
- `src/text.rs`, `src/duration.rs`, `src/shared.rs` — string helpers, spans of time and
  shared handles used across the library.
- `tests/` — tests of the library on concrete values.
- `app/` — the runtime around the library: locks shared between threads, the
  floating-point parts (similarity families, field comparisons, sampling rates,
  canary percentages, health rates), the sandbox's vector comparison, the loops that
  enforce an intent and install rules around the library's decisions, and periodic
  tasks.

Calls into outside crates (`sha2`, `uuid`, `chrono`) and into std where vstd gives no
specification (the clock, `Duration`, `Arc::clone`, hashing, lowercasing) stand behind
small trusted wrappers, marked `#[verifier::external_body]`, and one
`assume_specification`; their doc comments say what is assumed of them.

## Maps keyed by strings

The indices and registries look rules up by textual keys (agent, bundle, rule and
version ids) and must also walk all their entries and update one in place. They hold
vectors of key/value pairs, with the invariant that no key occurs twice. The two map
forms that vstd offers were tried first: with `std::collections::HashMap<String, _>`,
`len` after one `insert` into an empty map could not be proved, because vstd's model
covers only primitive keys; vstd's `StringHashMap` proves that, but offers no way to
walk its entries or to change a value in place.
