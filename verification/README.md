# musicfs

A music library file system's core, verified with Verus: the virtual directory tree,
the metadata overlay that rewrites tags on read, the FLAC and ID3v2 header handlers,
the origin router and registry, the content-addressed chunk store, and the decisions of
the scanner, watcher, metadata service, webhooks, plugins and search directory.

## Layout

- `src/` — the verified library. Every public function states its result in `ensures`
  over spec functions and views; laws that relate several functions are public proof
  functions (`law_*`).
  - `tree`, `tree_model`, `tree_laws`, `assoc`, `pathutil` — the virtual tree and its laws.
  - `flac`, `vorbis`, `id3`, `id3v2`, `id3_laws`, `fixed`, `format`, `overlay` — tag
    handling, fixed-point ReplayGain text, and the overlay read plan.
  - `router`, `registry`, `nfs`, `watcher`, `events` — origins: routing, retries,
    change debouncing.
  - `cas`, `cas_store`, `faulty_cas` — the chunk store's paths, bookkeeping and fault
    injection.
  - `db`, `service`, `scanner`, `cli`, `parser`, `config`, `webhook`, `plugins`,
    `prefetch`, `supervisor`, `search`, `query`, `handlers` — the remaining decisions.
  - `text`, `numtext`, `hexfmt`, `types` — shared text, number and hash helpers.
- `tests/` — tests run against the compiled library with the real outside crates.
- `app/` — the command-line program: argument parsing, files, SQLite, tag probing and
  the file watcher, driving the library.
