# Cargo GUI

A graphical front end for cargo: it runs cargo commands, shows their output with
the newest line on top, finds diagnostics in it, and has an editor with tabs,
find and replace.

- `src/` is the library: the application's state and what each message does to
  it (`app`, `message`), the editor (`editor`, `content`, `search`) and which
  texts it can lay out (`direction`), the output (`output`), the runs (`run`,
  `process`), the diagnostics (`diagnostics`, `log`), the settings (`config`), and
  what the pages show (`view`, `layout`, `keys`, `duration`). Everything in it
  carries a contract that Verus proves; `laws` states what holds of the
  application as a whole. What is believed without proof is the text widget of
  `iced` (in `content`), the paths of the standard library (in `paths`) and
  `String::push` (in `strings`).
- `app/` is the program around it: the window, dialogs, files and processes. It
  hands messages to the library and carries out the effects that come back.
- `tests/` runs the library.
