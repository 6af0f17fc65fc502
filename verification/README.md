# claurst

The core of a coding assistant's session, verified with Verus: what a
conversation with a language model holds, how it is kept within the context
window, and how a session talks to its remote end.

- `src/types.rs`, `src/json.rs`, `src/text.rs`: messages and what they are made of
- `src/compact/`: token estimates, thresholds, grouping by API round, summaries,
  micro-compaction, full compaction, and the breaker that stops it
- `src/engine/`: the query engine as a state machine; `model.rs` says what each
  operation does, `query_engine.rs` does it, `laws.rs` states what always holds
- `src/transport/`: server-sent events, JSON lines, URLs, and the decisions of
  the WebSocket, event stream and hybrid transports
- `app/`: the asynchronous clients, wire messages and serialization around it
- `tests/`: the library on concrete values

Amounts of money are whole billionths of a dollar, and shares of a window are
ratios of whole numbers, so that every comparison is exact.

What is trusted rather than proved stands behind small wrappers with a doc
comment each: `serde_json`, `url`, `http` header parsing, `uuid`, `chrono`, and
a few functions of the standard library.
