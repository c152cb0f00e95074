# vedit

The core of a small modal (vim-like) terminal text editor, written in Verus.

- `src/text.rs` — chars and strings: `str`/`String` to and from `Vec<char>`,
  UTF-8 byte widths and byte offsets, line splitting and joining, and the
  Unicode character classes used by word motions.
- `src/document/` — the text buffer (`Document`): line editing (`edit.rs`),
  word motions `w`/`e`/`b` (`motion.rs`), and wrapping pattern search and the
  word under the cursor (`search.rs`).
- `src/command_line.rs` — the `:` command line and the commands it names.
- `src/editor/` — the editor state machine: modes, the Normal-mode keymap,
  actions, count prefixes (`3j`, `2dd`, `3dw`), operators (`dd`, `dw`, `de`,
  `db`) with the register they fill, the key handlers and the status line. Keys
  and the screen size come in as values; a save is asked for by a flag.
- `src/laws.rs` — properties relating several operations (undoing an edit,
  search completeness, save/open round trip, scrolling shows the cursor, no key
  press loses track of unsaved changes, a clean document holds the lines last
  saved, ...).
- `app/main.rs` — the terminal program: raw mode, reading keys and drawing with
  `crossterm`, and reading and writing the file.
