# tiler

A tiling window manager for GNOME on Wayland. New windows land on a dedicated
stack screen and are tiled there in columns of up to five; a keyboard-driven
menu moves windows between monitors and applies layout presets (fullscreen,
side by side, top/bottom, quadrants), optionally enforced so that windows
snap back to their slots. Each workspace keeps its own state.

## Layout

- `src/` — the verified library (Verus):
  - `model.rs`: rectangles, presets, windows, monitors and per-workspace
    desktops with their window stack;
  - `tiling/`: the stack and preset layouts, the window filter, and the
    engine, which turns compositor events and menu input into state changes
    and an ordered list of effects (moves, raises, menu requests, and the
    state changes that follow them);
  - `menu/`: the menu state machine and the parsing of menu keys;
  - `config/`: the configuration and the choice of the stack screen;
  - `ipc/`: the socket protocol's commands, responses and frame headers;
  - `gnome/`: window/monitor descriptions, compositor events, and a
    recording stand-in for the GNOME Shell extension.
- `app/` — the binary: command line, logging, configuration file, D-Bus
  connection, the daemon loop that carries out the engine's effects, and the
  socket client and server.
- `tests/` — tests of the library, run against the real outside crates.
