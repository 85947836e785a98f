# Waydoodle

A minimalistic Wayland screen annotation tool: draw on the screen with the
mouse or a tablet, change colors, erase, clear and undo from the keyboard,
and show the key bindings with F1.

- `src/` is the library, verified with Verus: the drawing state and its
  history, the context menu's layout and navigation, the help panel's
  pixels, the pad and tablet bookkeeping, and the configuration's bindings.
  Each public function states what it does in its contract; the laws that
  relate several of them are public proof functions.
- `app/` is the program around it: the Wayland connection, cairo drawing,
  the tray icon, desktop notifications, global shortcuts and the tablet
  pad's device files.
- `tests/` exercise the library on concrete values.
