# centripetal

The rules of the game Centripetal, written in Verus and proved against their contracts:
localization format strings and locales, level files and their conversion, sprite sheets and
sprite packing, animations and their hooks, timers and time stuns, ground control, the
launching, hurting and health rules of the penumbra entities, key bindings, and the decisions
of the first level's script: its phases, the hovering lesson, the outcome of the launching
lesson and the rounds of the parrying lessons (what is drawn and shown on screen is not
here).

- `src/` is the verified library. Calls into outside crates (the atlas allocator of
  `guillotiere`, and `str::to_lowercase`) go through a few trusted wrappers whose contracts
  are stated next to them.
- `tests/` runs the library on concrete values.
- `app/` is a small command-line front: it finds the game's directories, loads the key
  bindings (RON), picks the locale of the system, and reads localization (RON), level and
  sprite sheet (JSON) files through the library.
