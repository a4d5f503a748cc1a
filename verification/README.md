# stilch

The window management of the stilch tiling Wayland compositor as a library
whose behaviour is stated in contracts and proved with Verus.

## Layout

- `src/` — the library, verified throughout; the calls into `std` and the
  `xcursor` crate go through a few trusted items whose contracts say what
  those functions do:
  - `config/` — the i3/sway-style configuration language: variables,
    key bindings, commands, outputs, virtual outputs, input settings.
  - `state.rs`, `workspace.rs`, `window.rs`, `virtual_output.rs` — the
    compositor state: the window registry, the ten workspaces, the virtual
    outputs, focus and the pointer, and the operations on them
    (`xdg.rs`: windows coming and going; `shell.rs`: focus, splits,
    panels; `fullscreen.rs`: the three fullscreen modes and floating).
  - `keybindings.rs`, `input.rs` — which action a key asks for and what
    it does to the state; the outside work it leaves is a `KeyEffect`.
  - `command.rs` — undoable commands and their history.
  - `validation.rs`, `validation_laws.rs`, `consistency.rs` — the
    agreement between registry and workspaces, the check for it, and the
    laws that every operation keeps it.
  - `grabs.rs`, `resize_state.rs` — interactive resizing.
  - `ascii.rs`, `ascii_grid.rs` — the ASCII test backend's commands,
    window records and drawing.
  - `cursor.rs` — cursor files and animation frames; `redraw.rs` —
    redraw scheduling; `ipc.rs`, `event.rs` — what IPC clients learn.
- `tests/` — tests of the library.
- `app/` — the program around it: arguments, configuration files, the
  IPC socket, starting programs, the ASCII test mode's scaling and the
  physical display layout (which works in fractional millimetres).
