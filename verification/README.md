# point_monitor

Verified decision logic of two services, written in Verus:

- a click-stream analytics pipeline: event parsing checks, sessionizing,
  per-user behaviour profiles (hour histogram, frequency tables, top
  entries) and a five-minute real-time aggregation window;
- a network monitor: monitor settings, HTTP result building (status,
  security headers, timings, content rules), connection probe decisions
  (probe target, fastest connect and handshake, certificate details),
  alert rules and paging.

Layout:

- `src/` — the library; every function carries a contract proved by Verus.
  `src/external.rs` holds the trusted boundary to outside crates (chrono,
  ua-parser, regex, http/url via reqwest, x509-parser, uuid, the system
  clock).
- `tests/` — executable tests of the library.
- `app/` — the services around the library: Kafka, Redis, ClickHouse,
  SQLite (diesel), HTTP servers (axum, actix-web), the HTTP client and the
  DNS/TCP/TLS probes. Run with `analysis` or `monitor` as first argument.
