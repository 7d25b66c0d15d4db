# flare

The rules of Flare, a small deployment platform for public GitHub
repositories, written in Verus with their contracts proved.

- `src/` is the verified library: parsing repository references and git
  output, the skip rule for monorepo builds, the deployment lifecycle and
  build plan (with its cancellation verdicts), rollback and promotion,
  static-file serving decisions, custom-domain hosts, webhook events and
  URLs, framework detection from `package.json`, and request analytics.
- `tests/` runs the library on concrete values.
- `app/` is the server around it: the HTTP API (axum), the SQLite store
  (sqlx), the build worker and poller, and the git and file-system work.
  It hands the library plain values and acts on what it returns.

Timestamps are milliseconds since the Unix epoch inside the library and
`chrono` times in `app/`.
