# neon_core

The decisions of a storage system that keeps Postgres databases in layers, as a library
whose behaviour is stated in contracts and proved with Verus.

- `src/base`: byte buffers, number codecs, texts, ordered maps, log positions.
- `src/pageserver`: replay of WAL records, files and layers of page versions, timelines, and
  the tenants that a page server holds.
- `src/safekeeper`: offloading of WAL to remote storage, and metrics.
- `src/proxy`: authentication, notifications, and queries over HTTP.
- `app`: connections, files, clocks and metrics around the library.

What the library takes from other crates is declared in `src/base/buffers.rs`,
`src/base/paths.rs`, `src/base/random.rs`, `src/proxy/http_parts.rs`,
`src/pageserver/aux_files.rs` and `src/pageserver/heatmap_uploader.rs`.

An operation that waits on something outside is a series of steps: a step looks at the state
and at what has come of the last action, and says what is to be done next.  `app` performs
the actions.
