# stremio_core

The application logic of a media center, verified with Verus: the state
models of its views, the reducers that update them, and the rules that decide
which requests they make. Each reducer takes the plain values it needs (the
planned requests, the current time, the library) and returns its effects; the
I/O around it lives in `app/`.

Layout of `src/`:

- `models/` — one module per view model: calendar, catalogs (with the
  choices of a catalog view: catalogs, types by priority, extra options and
  the next page), library views,
  continue watching, live TV guide and continue watching, link, player
  (playback events, watched progress, next video and streams, intro/outro),
  notifications of new videos, skip segments, source preview, casting and
  the streaming server (magnet links, torrents, playback devices);
  `models/ctx/` holds the user's context: the profile with its addons and
  settings, the played streams, the search history, signing in and out, and the routing of
  messages to the profile, the search history and the notifications; `models/common/` holds loadable resources and their
  reducers.
- `runtime/` — effects, environment errors and the storage schema migrations.
- `types/` — addons, resources, library items, player and skip-segment data.
- `sorted.rs`, `order.rs`, `text.rs` — a stable insertion sort over a
  three-way order, orders of integers and strings, and text helpers.

Calls into `chrono`, `url`, `magnet-url`, `data-encoding` and `hex` stand
behind small trusted wrappers whose contracts are stated next to them.

`tests/` runs the library on concrete values; `app/` holds JSON
(de)serialisation with `serde`, storage migration plumbing and clock access.
