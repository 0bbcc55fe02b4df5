# aura

A wallpaper manager: it rotates desktop wallpapers drawn from image files,
directories and RSS feeds, reads its settings from an HCL file, keeps its
rotation state between runs, and updates itself through Squirrel.

The decisions are made in a library verified with Verus (`src/`); the
process around it (`app/`) reads and writes files, talks to the network and
runs the main loop.

## Layout

- `src/config.rs`, `src/config_load.rs`, `src/document.rs`, `src/duration.rs`:
  the configuration model and its lenient reading from a parsed HCL
  document, where every refused value falls back to its default and is
  reported.
- `src/settings.rs`: the editable settings document and its canonical HCL
  rendering, and the starter configuration.
- `src/sources.rs`: image candidates, what file, directory and feed sources
  offer, feed URL extraction, cached downloads, and the merged, newest-first
  candidate list of a refresh.
- `src/rotation.rs`, `src/state.rs`: the rotation, which shows every image
  of its pool once per cycle in a random order, and its saved state.
- `src/session.rs`: the decisions of the main loop, from event to actions.
- `src/pipeline.rs`: output formats, image conversion, the conversion cache
  and its eviction.
- `src/cli.rs`, `src/installer.rs`, `src/updater.rs`, `src/diagnostics.rs`:
  the command line, the installer's paths and commands, the updater's
  statuses and command lines, and the debug and crash file locations.
- `src/display.rs`, `src/tray.rs`: renderer geometry and the tray's texts.
- `src/paths.rs`, `src/text.rs`, `src/urls.rs`, `src/version.rs`: paths as
  text, string helpers, URL parsing, and version banners.
- `app/`: the executable.
- `tests/`: tests of the library.
