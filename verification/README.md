# ortseam_gui

The rules of a multichannel-analyzer spectrum workbench, as a Verus-verified
library, with the desktop window around them.

- `src/viewmodel.rs`: which channels are on screen, the marker, and the
  vertical scale (including the round-number top of a logarithmic axis).
- `src/windows.rs`: the spectrum windows - opening, closing by identity,
  cycling with Ctrl+Tab, full-area mode, what gets painted.
- `src/keys.rs`: the keyboard, as a table from keys pressed to commands.
- `src/workspace.rs`: the workspace - the windows with their data and
  displays, the open dialogs, the marking mode and the status line - and
  what each command does to it: a step from the workspace and a command to
  the next workspace and what the interface has to carry out (arrange or
  collapse the windows, smooth a buffer).
- `src/dialogs.rs`: which dialogs exist and are open, file-filter spellings,
  the next sample identifier. The open dialogs are a vector that never holds
  one twice, viewed as a set: vstd specifies `HashSet` only through a key
  type's hashing and equality, which a derived `Hash` on a library enum does
  not give it, while a vector's contents are fully specified.
- `src/sample.rs`: the sample's reference date, read with chrono.
- `src/app.rs`: instrument scans, serial pinning, job command lines, the
  recent-files list, detector numbering and renaming, demonstration requests.
- `src/theme.rs`, `src/view.rs`: colour schemes and the display's events.
- `src/text.rs`: character-sequence helpers the rest are built on.

`app/` is the eframe/egui program: it hands each menu, keyboard and window
command to the workspace and carries out the effect that comes back. It
holds the drawing, the file system, persistence with serde, and the
arithmetic that needs floating point (zoom factors, plot geometry, colour
contrast, abbreviated counts).

`tests/` exercises the library from outside.
