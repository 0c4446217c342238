# ovk_panel

The server behind the OVK red-team panel: it submits drafts to OVK's flow
queue (the "rapids"), answers them with a resident persona panel, ingests
everything back into a local enrichment store, and serves a bilingual
(EN/ET) HTMX interface.

## Layout

- `src/` — the verified library (Verus):
  - `store.rs` — the enrichment store (runs, replies, personas, run
    metadata) with its invariants, and the laws on re-anchoring replies,
    shelves and persona locks;
  - `consumer.rs` — what one queue entry does to the store; ingesting is
    idempotent and keeps the store well formed;
  - `listener.rs` — the panel listener's decisions: backlog skipping,
    engine choice and its honest label, mock replies, reply batches, and
    the order in which an answer lands (replies, then the prediction);
  - `rapids.rs` — content types on the queue and their classification;
  - `flow.rs` — the flow daemon protocol: requests, responses, cursor walks,
    socket discovery and short socket paths;
  - `seeds.rs` — archetype to red-team role mapping and persona seeds;
  - `i18n.rs`, `web.rs` — string tables and the screens' decisions;
  - `config.rs` — configuration from plain settings;
  - `text.rs`, `codec.rs` — text helpers and base64 / UTF-8 conversion.
- `tests/` — tests of the library.
- `app/` — the program around it: environment, sockets, SQLite persistence,
  subprocesses, the HTTP server, and the floating-point figures.
