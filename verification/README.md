# cordanui

A goal tracker for the terminal with plugins, an agent backend, and a provider for
the Zen gateway. The library holds the logic and is verified with Verus; the program
around it does the I/O.

- `src/` is the library. Records and text: `schema`, `types`, `text`, `collections`,
  `json`, `time`. The database: `db`. Goals: `tree`, `app`, `goals`, `sheets`,
  `buffers`. Keys: `keys`, `config`, `handlers`, `events`. Plugins: `plugins`,
  `manager`, `commands`, `plugin_ui`, `settings`, `services`, `style`, `theme`,
  `help`. Agents: `agents`, `backend`, `zen`. Sync: `sync`. What is shown: `view`,
  `ui`, `popups`, `pages`, `forms`, `stats`, `screen`.
- `app/` is the program: terminal, files, processes, HTTP, and the workspace crates
  `cordanui_schema`, `cordanui_sync` and `cordanui_plugin_runtime`.
- `tests/` runs the library on concrete values.

A method that needs I/O gives what is to be written, as a statement or a command; a
second method takes in what was read back.
