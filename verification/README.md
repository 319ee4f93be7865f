# pop_launcher

A modular launcher service and its plugins, with the decision logic written in Verus and
proved against its contracts.

- `src/` is the verified library:
  - `protocol`: the messages between frontends, the service and plugins.
  - `service`: the launcher service as a state machine: which plugins a query reaches, how
    searches back off while plugins answer, how results are sorted, numbered and shown, and what
    activations forward and remember. `recent` keeps the recently and frequently activated
    commands; `priority` orders results; `plugin_config` reads a plugin's `plugin.desktop`;
    `help` is the built-in help plugin; `external` tracks a plugin's process.
  - one module per plugin: `calc`, `desktop_entries` and `graphics`, `files`, `pulse`,
    `scripts`, `terminal`, `web`, `browser`, `cosmic_toplevel`, `pop_shell`, `recent_files`,
    `search`, `manifest`.
  - `file_order`: how the file browser ranks directory entries, and when that ranking can be
    computed.
  - `text` and `pattern`: string helpers and regular expressions with their specifications.
- `tests/`: tests of the library on concrete values.
- `app/`: the program around the library: standard input and output as JSON lines, plugin
  processes, files and commands, and the floating-point relevance scores.
