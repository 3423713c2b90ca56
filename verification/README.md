# routectl-router

The routing core of a model router, written in Verus: executable Rust whose
behaviour is stated in contracts and proved.

- `src/` is the library. `router`, `install` and `reload` hold the routing
  table and what a replacement router takes over; `overlays` composes headers,
  beta flags and payload for a target; `prefix_rewrite` tells clients that
  rewrite their own history from those that append; `opening_lookup` and
  `samples` answer what a request opens with and what it leaves as evidence;
  `probe`, `probe_seat` and the `paid_probe_*` modules decide which probe may be
  paid for and what comes of it. The `*_laws` modules state what holds across
  functions.
- `session_cache` and the serializer in `prefix_rewrite` are where the library
  calls `lru` and `serde_json`; what is believed of those calls stands in their
  contracts.
- `tests/` runs the library with those crates linked.
- `app/` is ordinary Rust around the library: locks, timeouts, logs, and the
  calls to the ledger and the upstream.
