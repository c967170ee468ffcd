# hints

Keyboard-driven mouse control for Linux desktops: hint labels are drawn over
the clickable elements of the focused window, typing a label moves the
pointer there and clicks, hovers or drags; a small service (`hintsd`) drives
two virtual uinput mice.

The decisions of the tool are a library verified with Verus (`src/`):

- `config` — the configuration model, its defaults and how a user file is
  merged over them;
- `hints` — the labels assigned to elements;
- `overlay`, `interceptor`, `session` — key handling of the hint overlay and
  of the pointer-driving popup, and the mouse requests a chosen action
  becomes;
- `window_systems`, `json` — choosing a window system and reading what each
  compositor reports about the focused window;
- `backends` — backend selection, accessibility-rule decoding and matching,
  and turning edge-detection contours into elements;
- `mouse`, `input` — the events a click consists of and how the service
  decodes requests;
- `setup` — the environment-file update and answers of the guided setup;
- `text` — string operations the rest is stated with.

`app/` holds the program around it: command line, GTK windows and Cairo
drawing, the accessibility bus, screenshots and Canny edges, X11, the uinput
devices and the service socket. `tests/` exercises the library.
