# cim-graph

An event-sourced graph library whose behaviour is stated in Verus contracts
and proved. Events are the only way state changes; projections, aggregates,
chains of content ids and state machines are folds over event streams.

Layout:

- `src/` — the verified library.
  - `error.rs`, `ids.rs`, `json.rs`, `strmap.rs`, `text.rs` — errors, UUIDs and
    timestamps, JSON values, text-keyed maps and text helpers.
  - `events/` — event payloads and commands, the command handlers of each graph
    type, JSON forms of payloads and the stream subjects `cim.graph.…`.
  - `graph_core/` — nodes, edges, projections and their engine, aggregates and
    the event store, the chain of content ids, the graph state machine,
    policies and the event-emitting graph.
  - `functors/` — the functor from graphs to domain objects, natural
    transformations and Kan extensions.
- `tests/` — tests of the library, run against the compiled crate.
- `app/` — ordinary Rust around the library: an event handler that keeps events
  behind a lock, weighted edge data, the error type with `std::error::Error`,
  serde forms of library values and the JSON bridge to `serde_json`.

The event-emitting graph keeps its nodes and edges in `StrMap`, the verified
text-keyed map of `strmap.rs`, rather than in a petgraph graph: its contracts
speak of what the graph holds, and the graph is generic over its node and edge
types, so petgraph's opaque storage could not be given a name for its contents.
