# rs2br_engine

The verified core of the RS2BR 2D game engine and editor.

- `src/` is the library, written in Verus: every function carries a
  contract that Verus proves. It holds the RS2 script format (checking a
  script line by line and reading what it makes an entity do), asset
  names, kinds and checks, the save/session/script key-value stores, the
  runtime's bookkeeping (scene changes, destroy requests, collision
  contact events, collision layers), the animator's state graph, and the
  editor's decisions (warnings, listings and filters, selection, undo and
  redo, scene tabs, delete and rename requests).
  Public proof functions named `law_*` state properties that hold across
  calls (for instance that undo followed by redo restores the scene, or
  that deleting an animator state leaves nothing pointing at it).
- `app/` is the command-line program around it: argument parsing, the
  file system, JSON files, and building a standalone copy of a game.
- `tests/` runs the library on concrete values.

The graphical editor, the game loop's physics and rendering, audio
playback and Lua scripting are not part of this crate.
