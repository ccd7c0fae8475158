# garterm

A GPU-accelerated terminal emulator for X11 whose core is written in Verus:
the library in `src/` states what its functions do in `requires`/`ensures`
contracts, and Verus proves the code against them.

## Layout

- `src/` — the verified library.
  - `terminal/` — the screen model (cells, lines, grid with scrollback,
    cursor, modes) and what each escape sequence does to it (`dispatch.rs`,
    `sgr.rs`), plus text search over the screen.
  - `input/` — keys to the bytes a shell expects, mouse reports in the X10,
    UTF-8 and SGR encodings, selection and the search state.
  - `config/` — colors and presets, keybindings and their parsing, and the
    state the Lua configuration fills in.
  - `ui/` — the split tree of panes, tabs and the tab manager, the tab bar.
  - `control.rs` — what each action, IPC command, Lua command, session and
    shortcut asks the window to do.
  - `ipc.rs`, `pty.rs`, `render/` — the parts of the socket protocol, the
    pseudo-terminal size and the renderer that compute without I/O.
  - `text.rs` — decimal, UTF-8 and base64 helpers, and the calls into
    `base64`, `unicode-width` and std's string functions, each with the
    contract it is trusted to meet.
- `tests/` — tests of the library, run against the compiled crate.
- `app/` — the program around the library: the X11 window and event loop,
  the wgpu renderer and fonts, the shells on pseudo-terminals, the clipboard,
  the IPC socket, Lua configuration and the `gartermctl` command.

Laws that span several functions (a split undone by closing the new pane,
the previous tab undoing the next one, a saved cursor restored, a key combo
read back from its text, ...) are public proof functions next to the
functions they speak of.
