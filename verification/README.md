# rustile

A dynamic tiling window manager in the style of Qtile, for X11 (through
`x11rb`) and, experimentally, as a Wayland compositor (through `smithay`).

The window manager's decisions are a verified library (`src/`):

- `wm_core` — the focus stack of a workspace (adding, swapping and rotating
  windows, removing one), workspaces, appearance settings, modifier masks;
- `wm` — the state of the X11 window manager and what each event does to it:
  focus changes, switching workspaces, sending windows to other workspaces,
  floating windows, adopting windows that were already on screen;
- `layout` — the master/stack tiling with gaps and borders, the column
  tiling, the placement of floating windows;
- `props` — decisions taken from window properties: which windows float,
  how much room panels reserve, which keycode produces a keysym;
- `keymap` — the map from key combinations to actions;
- `config` — settings and shortcuts of the Wayland compositor;
- `command` — splitting a command line into program and arguments.

`app/` holds what talks to the display servers: the X11 event loop and
requests, the Wayland compositor, and the master column ratio (a
floating-point number).
