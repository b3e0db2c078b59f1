# netwatch

A small self-hosted monitor for network availability and latency: HTTP(S)
status, body and header checks, DNS answers, TCP connects and ping, stored in
SQLite, rolled up into minute, hour and day aggregates, with alerts after a
run of failures and on recovery, delivered to an optional webhook.

## Layout

- `src/` is the library, verified with Verus. It holds the decisions of the
  service and their specifications:
  - `domain/`: monitors, check results, aggregates and alerts, with the
    validation of monitor input;
  - `probes/`: the success rules that judge what a probe observed, and how a
    probe's outcome becomes a check result;
  - `scheduler/`: when a monitor is due, how buffered results are taken for
    storage, calendar-aligned rollups and retention, and alert decisions;
  - `web/`: splitting a queried range by retention, filling missing probes
    with unknown points, series metrics, and the dashboard's figures;
  - `state.rs`: the in-memory result buffer and monitor cache;
  - `config.rs`, `storage/`, `text.rs`, `sorting.rs`, `instant.rs`: settings,
    stored forms, text and ordering helpers, millisecond instants.
- `app/` is the service around it: the HTTP API (axum), SQLite access
  (sqlx), the network probes (reqwest, hickory, tokio), the timers, and the
  wire forms of the library's values.
- `tests/` exercises the library on concrete values.

## Configuration

`NETWATCH_HOST` (default `127.0.0.1`), `NETWATCH_PORT` (`4311`),
`NETWATCH_DATABASE_URL` (`sqlite://netwatch.db`),
`NETWATCH_SCHEDULER_TICK_SECONDS` (`5`), `NETWATCH_FAILURE_THRESHOLD` (`3`),
`NETWATCH_AGGREGATION_TIMEZONE` (the machine's offset when unset),
`NETWATCH_COMPACT_INTERVAL_SECONDS` (`600`),
`NETWATCH_CHECK_FLUSH_INTERVAL_SECONDS` (`60`), `NETWATCH_WEBHOOK_URL`.
