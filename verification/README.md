# jfc

The logic of a terminal client for coding agents, proved with Verus: what it
shows, how it answers the keyboard and the mouse, how it talks to a model, and
what it keeps of a session.

- `src/` is the library. Every function there says in its contract what it
  returns, over the mathematical model of its arguments. Functions named `law_…`
  state what holds across several of them. Drawing is a function from state to
  styled rows; requests and the event loop are state machines from an event to
  the actions that follow.
- `tests/` runs the library on concrete values.
- `app/` is the program around it: the terminal, the clipboard, files, requests,
  and everything that counts in floating point.

A few functions of other libraries are believed rather than proved: the
character tables of `std` and `unicode-width` beyond ASCII, the pretty printer of
`serde_json`, and the layout and line wrapping of `ratatui`. Each stands behind a
small wrapper whose doc comment says what is taken for granted.
