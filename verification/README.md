# Tessera

A minimal X11 tiling window manager whose decisions are verified with Verus.

- `src/` is the library. It holds everything the window manager decides:
  the event bus, the dynamic workspaces, the window lifecycle, the
  master-stack layout, directional focus, the configuration and theme files,
  the keybindings and their grabs, the requests that frame, configure and
  focus clients, the desktop properties, the status bar and its glyph images.
  Every public function says in its contract what it returns or changes.
- `app/` is the program around it: the command line, files, child processes,
  the X connection, the font rasteriser and the bar's thread. It performs the
  requests that the library asks for and hands back the answers.
- `tests/` runs the library on concrete values.

## How the pieces fit

A display server yields events; `App::step` publishes each one on the bus,
applies it to the windows and workspaces, recomputes the placements and tells
the display server about them. `AppView` is the mathematical state of that
machine; it holds the conversation with the display server, so the contracts
say which calls are made, in what order, and what a failed one changes.

A conversation with the X server is a function from the answers so far to the
next request or the outcome (`Next`). The program asks and answers; the
library decides.

## Laws

What holds of the library as a whole is stated by public proof functions whose
names begin with `law_`: `app_laws.rs`, `workspace_laws.rs`,
`layout/tiling_laws.rs`, and the end of the other modules. Some of them:

- workspaces keep their order, and no window stands on two of them;
- placements lie inside the area, do not overlap, place every window once, and
  stand two gaps apart;
- a window is removed at most once, and an unmap before it changes nothing;
- cycling focus back undoes cycling it;
- a selection that another window manager owns is never taken;
- the names of keys and modifiers in a configuration mean their numbers;
- an empty configuration file is the default one.

## What is trusted

The wrappers marked `external_body` and the declarations beside them: the
queue of `crossbeam_channel` (`bus.rs`), the parser of `toml`
(`document.rs`), constants of `x11rb` (`event_loop.rs`, `ewmh.rs`,
`display_server.rs`), and two functions of the standard library (`text.rs`).
