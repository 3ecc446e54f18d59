# amuxd

A tmux-backed session daemon and the logic of its browser terminal, written in Verus.

- `src/` is the verified library: workspaces and managed git worktrees, session listing and
  lifecycle decisions, tmux input planning and output parsing, the `vt100` terminal core and
  its snapshots, the diff frames and client messages of the terminal stream, and the repaint planning, palette and mobile input
  state of the browser renderer. Each public function states its behaviour in `ensures`;
  the laws that relate several calls are public proof functions.
- `app/` is the program around it: the axum HTTP and WebSocket server, the SQLite control
  store, the tmux process runner, the `vte` escape-event reader, the embedded browser shell
  and the canvas painter.
- `tests/` exercises the library on concrete values.
