# qview_gui

The logic of the three user interfaces of a viewer for very large text files,
written and verified in Verus.

- `src/` is the library. What it does is stated in the contracts of its functions
  and proved; nothing in it reads files, draws or talks to a window system.
  - `egui/` is the interface that is drawn anew for every frame: highlighting,
    long lines that are laid out row by row, the toolbar.
  - `macos/` is the interface on AppKit: configuration, menus, selection, search,
    settings, the state of the application.
  - `native/` is the interface on Win32: layout, painting as lists of what is
    drawn, messages, dialogs, annotations.
  - The other modules are shared: numbers and texts, levels of log lines, UTF-16,
    colours, paths, sorting, occurrences of a text.
- `tests/` runs the library on concrete values.
- `app/` is a program around the library. It reads files and settings, runs frames
  of the interface and performs what the library decides. Places that are
  fractions of pixels are computed there too.

Laws that hold of several functions together are public proof functions whose
names begin with `law_`.

Trusted are the declarations that stand for outside functions: searching in bytes
(`occurrences.rs`), upper and lower case (`levels.rs`,
`macos/settings_sheet.rs`), and two functions on characters and strings
(`utf16.rs`).
