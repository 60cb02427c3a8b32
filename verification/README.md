# hexrust

A multi-server IRC client for GTK4, whose protocol handling, window state
and command logic form a library verified with Verus.

## Layout

- `src/` — the verified library.
  - `session.rs`: one connection as a state machine — registration, CAP/SASL
    PLAIN, taken nicks, PING, the welcome and the initial join.
  - `irc.rs`: what each server line means for the UI (`route_irc_line`).
  - `numerics.rs`, `format.rs`: numeric replies as prose; mIRC formatting
    stripped.
  - `backend.rs`: commands from the UI and reconnection with backoff.
  - `ui.rs`, `users.rs`, `input.rs`: the window's state (buffers, counters,
    user lists, sidebar), and what typing, slash commands and the command
    palette do to it.
  - `commands.rs`, `complete.rs`: slash-command planning and tab completion.
  - `profiles.rs`, `logging.rs`: saved profiles and where logs go.
  - `sasl.rs`, `text.rs`, `clock.rs`, `util.rs`, `model.rs`: the pieces the
    rest is built from.
- `app/` — the program: GTK widgets, sockets, the tokio backend thread,
  files. It carries out what the library decides.
- `tests/` — tests of the library.

Each public function states what it returns in its contract; the laws that
span several calls are public proof functions next to the code they are
about.
