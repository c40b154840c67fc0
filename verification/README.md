# Foxix

Foxix is a GPU-rendered terminal emulator for Linux (OpenGL, Wayland and X11
through winit). Its core is written in Verus: every function of the library
carries a `requires`/`ensures` contract that Verus proves.

## Layout

- `src/` — the verified library:
  - `terminal/` — the escape-sequence interpreter (`AnsiParser`, driven by the
    `vte` state machine), the screen grid with its scrollback, the cursor and
    the kitty graphics protocol;
  - `renderer/` — software rasterisation of box drawing, block elements and
    braille, glyph-sprite compositing and atlas packing, cell colours;
  - `config/` — the `kitty.conf`-style configuration grammar and settings, and
    the text read from desktop tools (wallpaper paths, DPI);
  - `window/` — key handling (what each key press sends or does);
  - `ui/`, `ui_layout/`, `ui_marks/`, `notifications/`, `shell/`, `kittens/`,
    `pty_io/`, `utils/` — tabs, selection, zoom and scrolling, layouts, marks,
    notification history, shell bootstrap scripts, byte queues, colours.
- `app/` — the program around it: window and OpenGL context, FreeType, the
  pseudo-terminal and child process, files, clipboard and desktop commands.
- `tests/` — tests of the library on concrete values.

Outside crates are reached from `src/` only through a few trusted
declarations, each documented where it stands.
