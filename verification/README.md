# rusty_roguelike

The rules of a tile-based roguelike, written in Verus and proved against
their contracts: the dungeon map and its geometry, room-and-corridor level
generation, themes and wall glyphs, the camera, the turn order and the
creatures' decisions, hunger, damage and experience, items and their names,
the event counters, the menus' answers to key presses, the side panel's
lines, tooltip placement, and the state machine that drives each frame.

Layout:

- `src/` – the verified library. Randomness comes from the terminal
  library's dice (`src/rng.rs`), code page 437 codes from its table
  (`src/glyph.rs`); both are trusted wrappers with stated contracts.
- `tests/` – tests on concrete values, run against the compiled library.
- `app/` – the program: the entity system, drawing with colours, key
  handling, and the frame loop that carries out what the state machine
  decides.
