# Villain

Villain is the compositor and window manager of the Knave desktop. This crate
holds its window-management policy, configuration loading and session rules as
a library whose behaviour is stated in contracts and proved with Verus; the
program around it lives in `app/`.

## Layout

- `src/layout.rs` — the master-and-stack tiling and the fitting of floating
  windows into the output and their size hints.
- `src/workspaces.rs` — workspaces, window placement and stacking, focus and
  minimize histories, fullscreen, hints, adding and removing windows.
- `src/focus.rs` — keyboard-focus policy, focus that follows the pointer, and
  the decisions of a relayout.
- `src/dispatch.rs` — the command interface and what each command leaves for
  the compositor to do.
- `src/ipc.rs`, `src/protocol.rs` — the answers of the desktop protocol.
- `src/config.rs`, `src/environment.rs` — loading the configuration and the
  environment file (data, not a shell script).
- `src/session.rs` — the environment of the session, of activation and of
  launched applications.
- `src/laws.rs` — properties that relate several operations.
- `src/text.rs` — text helpers with specifications.
- `app/` — arguments, logging, signals, reading files, the IPC socket,
  launching applications and session activation.
