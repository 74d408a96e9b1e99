# Coral Reef

A terminal clicker: plant, restore and protect a coral reef whose cells live
by Conway-style rules and are eaten by spreading disease.

- `src/` is the verified library: the reef grid and its ages (`coral`), the
  rulebook interface and its two rulebooks (`rulebook`, `rules`,
  `conway_rules`), text assets (`assets`), the stamp library (`stamps`), the
  cursor (`player`), the game state and its tick (`model`), the key mapping
  (`controller`), the screen geometry (`view`) and the layout (`constants`).
  Chance comes from `rand` through the two functions of `random`.
- `app/` is the terminal front end on `ruscii`: asset files, keyboard,
  drawing and the frame loop.
- `tests/` runs the library on concrete reefs.
