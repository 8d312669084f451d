# wars

Rules of a turn-based strategy game on a hexagonal map, verified with Verus.

- `src/model`: the unit, weapon, armor, movement and terrain tables, as executable lookups
  and as spec functions; `model_old` holds the first configuration of the rules as maps.
- `src/game`: tiles, units and seats (`game.rs`), the per-tile and per-unit rules
  (`tile.rs`, `unit.rs`), the player actions and turn cycle (`action.rs`), the search for
  a unit's move options (`options.rs`), map files read into a map (`map.rs`) and a text
  drawing of the board (`ascii.rs`).
- `src/util.rs`: taking the single item of a list, and walking the distinct items of one.
- `app/main.rs`: reads a map file with serde and sets up a game on it.

Every action states, in its contract, exactly when it is refused and with which error,
that a refused action leaves the game and the event log as they were, what an accepted
one changes and reports, and that the game stays well formed.
