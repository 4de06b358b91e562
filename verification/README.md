# deskulpt

The core of the Deskulpt desktop widget platform as a library verified with
Verus, with the application around it.

- `src/` — the verified library:
  - `settings`, `persistence`: settings, patches and what an update asks of
    the settings worker; the settings file's schema.
  - `catalog`, `config`, `string_map`: the widget catalog and widget
    configurations, over a verified string-keyed map.
  - `registry`, `index`: registry widget references, package checks and
    previews; the decisions of fetching the registry index.
  - `starter`, `setup`, `persist`, `bundler`, `logging`: starter widgets,
    window setup state, debounced persistence, the bundler configuration,
    and the rules for rotated log files.
  - `plugin`, `fs`: the plugin registry, the engine interface's decisions,
    and the file system plugin's commands.
  - `text`: small verified string helpers.
- `app/` — files, network, workers and the plugin C interface, calling the
  library for every decision.
- `tests/` — tests of the library.
