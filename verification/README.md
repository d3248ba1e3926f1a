# bobatea

Terminal layout and styling: in-memory surfaces of styled cells, borders,
padding and margins, and interactive components (buttons, inputs, lists,
tables, trees, forms, dialogs, toasts, tabs and more) whose event handling
is a set of small state machines.

- `src/` is the library, verified with Verus. Each public function states
  in its contract what it returns and how it changes its arguments; the
  laws that relate several functions are public proof functions next to
  them.
- `tests/` runs the library on concrete values.
- `app/` is the terminal front end: conversions to and from ratatui and
  crossterm, drawing components into a buffer with a theme, floating-point
  colour blends, animations, the file system side of the file picker, and
  the application's event loop, whose decisions come from
  `bobatea::runtime::step`.
