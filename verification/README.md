# ped

A terminal text editor whose core is written in Verus and proved against its
contracts.

## Layout

- `src/` is the verified library:
  - the gap buffer (`buffer`) and the text positions it works with (`text`, `etc`, `nav`);
  - the editor with its undo and redo logs, and its syntax tokens (`editor`, `syntax`, `token`);
  - term and regular-expression search, and the incremental search of a search
    question (`search`, `question`);
  - the wrapping display, a buffer shown on one, and the rendering of its rows into
    cells (`wrap`, `document`, `render`);
  - the cell grid and its diffing canvas (`grid`, `canvas`, `writer`, `ansi`);
  - key decoding (`key`), key bindings and configuration (`bind`, `config`, `color`, `opt`);
  - the input line and its completers (`input`, `user`, `complete`);
  - windows, the workspace and the environment of editors (`window`, `workspace`, `env`);
  - the editing operations (`op`, `ed`, `clip`) and the controller's decisions (`control`).
- `tests/` runs the library on concrete values.
- `app/` is the program around it: command-line handling, reading the resource and
  syntax files, the terminal in raw mode, the clipboard, and the event loop.
