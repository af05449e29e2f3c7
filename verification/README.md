# turnbase

A headless, deterministic turn-based game engine core, written in Verus.

`src/` is the verified library. Each type has a mathematical model (a view)
and every public function states what it returns or changes in terms of it:

- `rng` — a PCG XSH-RR generator whose whole state is one `u64` position;
  rejection sampling (`below`), ranges, choice and Fisher–Yates shuffle, with
  laws on determinism, bounds and permutation.
- `pile`, `active`, `state` — card piles, the set of seats owed a decision,
  and a match state with public and per-seat private zones and the generator.
- `effects` — resolving cascading effects in order, with a cap.
- `error`, `host` — whether an action is accepted, and the version counter
  and chance sampler of an in-memory host.
- `seats`, `controls`, `dashboard` — who acts next, which seat the board is
  shown from, what every key does in the interactive dashboard, and the
  dashboard's panel geometry.
  The dashboard takes the mouse as well as the keyboard: the wheel scrolls
  the log strip (as do `PgUp`/`PgDn` and `Home`/`End`), its scrollbar is
  click-to-jump and drag-to-scroll, and clicking a row in the action menu
  selects it, with a second click on the selected row playing it.
- `cli`, `bots`, `protocol` — command-line seat lists and prompt choices,
  seeds, the random bot's choice and the minimax depth, and the wire types.

`tests/` exercises the library from outside. `app/` holds what the library
cannot: the `Game` trait and the search bots (both score with floating
point), the turn loop over boxed bots, the JSON save file, the command line,
and the terminal dashboards, each calling the library for its decisions.
