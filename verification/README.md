# sixtysix

A verified engine for the two-player trick-taking card game Sixty-six (a
Schnapsen variant), written in Verus.

- `src/cards.rs` – card encoding (`suit * 100 + rank_value`), the deck, the
  trick winner, hand helpers.
- `src/game.rs` – the game state, the rules as spec functions
  (`validate_rules`, `apply_rules`), dealing, and `SixtySix`, which implements
  the `Game` trait against them.
- `src/engine.rs` – actions, errors, sessions, the `Game` trait (each game
  brings its own state type), the `Store` trait and the `Engine`, which
  registers games and runs sessions in a store.
- `src/store/memory.rs` – the in-memory `Store`.
- `src/sort.rs` – the stable sort the hand and listing orders are stated with.
- `src/laws.rs` – properties across functions: card conservation in the deal,
  follow-suit, trick resolution, scoring, cards kept by every valid action,
  read-after-write of the store, listing order.
- `app/` – the HTTP server (axum), the demo server (`demo::run`) and the JSON
  forms of the library's types.
