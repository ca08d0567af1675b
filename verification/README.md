# albumctl

A declarative builder for a music library. A source directory holds modules:
each module has metadata, and either child modules or source audio files.
Child modules inherit the metadata and the tracklist of their ancestors.
`albumctl build <DIR>` builds every leaf module (a unit) into the output
directory named by the root module, skipping units whose previous build still
stands, and deletes what the build no longer produces.

## Layout

- `src/` is the library, verified with Verus. It holds the decisions of a
  build: metadata inheritance and the checks of a module lineage
  (`build/load.rs`), unit fingerprints and the plan of a unit's build
  (`build/unit.rs`), the build index (`build/index.rs`), which units are
  skipped (`build/skip.rs`), which items of the output directory are stale
  (`build/clean.rs`), the arguments of ffmpeg and rsgain, the model of a
  source with its albums and releases ordered by identifier (`model.rs`),
  and the release-unit steps (`build/raw.rs` to `build/finalize.rs`).
- `app/` is the program around it: the command line, reading and writing
  manifests, the filesystem, running ffmpeg and rsgain, and printing.
- `tests/` runs the library on concrete values.
