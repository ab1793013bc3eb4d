# keyed_editor

The core of a modal terminal text editor, verified with Verus.

- `src/` is the library, verified by Verus: its public functions carry
  contracts over the data they work on. It covers the action language and
  its parser, the positional keymaps and themes read from KDL, the configuration layers and how a chain of them is
  resolved, the screen geometry, the screen buffer and what it sends to the
  terminal, the buffer views (plain and soft-wrapped drawing, cursor moves,
  editing), the fixed-size scrolling text, the status bar and the popup.
  Calls into `kdl`, `ropey`, `unicode-segmentation` and `strsim` stand behind
  small trusted wrappers whose contracts say what those crates document.
- `tests/` runs the library on concrete inputs.
- `app/` is the terminal program around the library: the event loop, the
  terminal I/O with `crossterm`, the buffer server thread, the shared
  configuration chain read from disk, and the popup's easing animation,
  which is computed in floating point.
