# openai-proxy

A logging proxy for OpenAI-compatible APIs with a small dashboard. The
decisions the server makes are written in Verus and proved against their
contracts; the server itself (HTTP, files, SQLite, WebSocket, clock) is
ordinary Rust around them.

Layout:

- `src/` — the verified library (`openai_proxy`):
  - `text` — character-level string helpers (views are `Seq<char>`);
  - `proxy` — which headers cross the proxy, gzip handling of logged bodies,
    bodies logged as JSON where they parse and as text otherwise;
  - `logging` — the logged header object, credential redaction, log file names;
  - `store` — transaction ids (UUIDs) and the files that hold transactions;
  - `download` — markdown export of conversations and answers;
  - `fragments` — dashboard cards, detail pane, stats labels, list order;
  - `metrics` — time windows, hour buckets, metrics of a transaction, pricing tiers;
  - `access` — dashboard bearer token, socket origin check, socket decisions.
- `tests/` — tests of the library with concrete values.
- `app/` — the server: routes, handlers, SQLite, rendering with maud.

Floating-point figures (costs, averages, error rates) are computed in `app/`
from the integers the library provides.
