# rz

Agent-to-agent messaging over Zellij panes: a library with proved contracts,
and a command-line front end.

- `src/` — the library:
  - `zellij`: pane descriptions, full pane IDs, pane ID shorthand, the own pane
    ID, and the `zellij` command lines for sending, spawning, closing,
    renaming, coloring, dumping and watching panes;
  - `status`: counting `@@RZ:` lines in a scrollback, the session summary and
    its text;
  - `bootstrap`, `workspace_bootstrap`: the instructions sent to a newly
    spawned agent, without and with the session workspace;
  - `session`: the sender identity, broadcast targets, the workspace path,
    and when to stop waiting for a spawned pane;
  - `table`: the pane tables of `rz list` (with and without titles);
  - `hub`: the hub plugin's routing and rendering decisions;
  - `protocol`, `text`: the wire marker and character-level helpers.
- `app/` — `main`: argument parsing, running `zellij`, JSON decoding of the
  pane list and encoding of messages, the environment and the workspace
  directory.
- `tests/` — tests of the library on concrete values.
