# retropad

A small Notepad-style text editor for Windows. The editing logic is a library
verified with Verus; a thin Win32 program drives it.

## Layout

- `src/` — the verified library
  - `file_io.rs` — encoding detection (byte order marks, UTF-8, ANSI), decoding a
    file's bytes, the bytes a document is saved as, and the file dialog buffers
  - `search.rs` — find (down or up, wrapping round, with or without case) and
    replace-all over the document text
  - `app.rs` — the editor state and the decisions of the main window: titles,
    save prompts, word wrap and status bar, menus, commands, the Find/Replace
    and Go To dialogs, layout and status bar text
  - `unicode.rs` — UTF-16 and the standard library's string conversions
  - `text.rs` — building text from pieces and decimal numbers
  - `win32.rs` — message and style constants, window structures, wide strings
  - `resource_ids.rs` — menu, dialog and icon identifiers
- `tests/` — tests of the library
- `app/` — the Win32 program: window procedure, dialogs, file I/O, message loop

Printing is not implemented.
