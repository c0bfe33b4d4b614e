# nzbdav

A Usenet-backed virtual filesystem served over WebDAV, with a
SABnzbd-compatible API for Sonarr/Radarr. NZB documents added through the API
become queued jobs; finished jobs show up as files that are streamed from
Usenet on demand.

## Layout

- `src/` — the library, verified with Verus: the data model and its database
  codes, HTTP `Range` parsing, path handling, the PROPFIND XML, the decisions
  of the WebDAV store and handlers, the SABnzbd API, configuration and
  settings, the server list, access control, health checks, the queue
  manager's state, Arr/rclone requests and the log buffer.
  `src/bindings.rs` holds the calls into outside crates, each with the
  contract that the rest of the library relies on.
- `tests/` — tests of the library.
- `app/` — the server program: HTTP routing (axum), SQLite (rusqlite),
  Usenet connections, background tasks, logging and the JSON forms of the
  library's types.
