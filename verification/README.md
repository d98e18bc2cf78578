# i3_switcher_x11

An Alt+Tab workspace switcher for the i3 window manager. Holding Alt and
pressing Tab shows one tab per workspace and moves the highlight; letting go
of Alt focuses the highlighted workspace. The tab of the workspace left last
comes first, so a single Alt+Tab goes back to it.

- `src/` is the verified library: the tab list (`tabs`), the shared state and
  its steps on key events and window timers (`state`), workspace events
  (`events`), the plain overlay window's logic (`overlay`), the i3 commands
  (`i3wm`), screenshot paths and layouts (`screenshot`), the style file
  (`style`) and decimal text (`text`).
- `app/` is the program around it: the X11 key grab, the i3 connection, GTK
  and the screenshots.
- `tests/` runs the library on concrete cases.
