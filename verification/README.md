# sentinel

The logic of a terminal system monitor (security dashboard, thermal
auto-shutdown, market and Windows-host tabs, settings), written in Verus with
its behaviour stated in `requires`/`ensures` contracts and proved.

## Layout

- `src/` — the verified library.
  - `text` — character-level helpers (search, trim, split, decimal and hex
    numbers, UTF-8 byte lengths) that the parsers and formatters share.
  - `clock` — instants, wall-clock milliseconds and the local hour.
  - `store` — event kinds, `/proc/net/tcp` rows, and the per-tick diffs that
    turn process and listener snapshots into events.
  - `security`, `collector` — the security dashboard: port risk, the score,
    panel navigation, and the parsers for auth logs, crontabs, timer listings,
    `who` and `dpkg --verify` output.
  - `thermal`, `lhm` — sensor classification, the sensor-tree walk, and the
    auto-shutdown state machine.
  - `registry` — the plugin interface and the registry of tabs.
  - `market`, `market_tab` — the market tab's state, key handling and commands.
  - `windows`, `windows_tab`, `windows_context` — the Windows tab's state, key
    handling, security alerts and the AI analysis context.
  - `cooldown` — the alert cooldown table.
  - `sort_order` — stable ordering of list rows by a whole-number or text key,
    and the keys of the process and coin lists.
  - `settings` — settings categories and the settings tab's navigation and
    editing.
  - `settings_config` — the in-app settings editor's data: the settings list
    built from the configuration, and the writer that stores an edited value
    back into it.
- `tests/` — tests of the library on concrete values.
- `app/` — the unverified rim: file, process and network I/O, SQLite storage,
  HTTP clients, JSON types, and the parts that compute with floating point
  (among them the floating-point thresholds of the settings editor).

Each public proof function (`lemma_*`) states a property of the library as a
whole, such as a cycle of keys returning to where it started or a state
machine never skipping a level.
