# chess_education

A service for chess exercises (mate in one, piece training, captures, full games
against a small engine) whose rules, exercises, objectives, engine choices and
session steps are a Verus-verified library.

## Layout

- `src/board.rs` – squares, moves, positions and their UCI/FEN readings.
- `src/shak.rs` – the calls into `shakmaty`, each behind a trusted item.
- `src/rules.rs` – the `ChessRulesEngine` contract and its `shakmaty` implementation.
- `src/exercise.rs`, `src/generator.rs`, `src/objective.rs` – exercise data, the
  exercise factory and the objective evaluator.
- `src/engine.rs` – the bounded negamax engine and its repeatable move choice.
- `src/session.rs`, `src/service.rs`, `src/repository.rs` – session state, the steps
  of the session lifecycle with the laws that relate them, and in-memory storage
  over `dashmap`.
- `src/api.rs` – transport decisions: error codes, origins, URLs, request fields.
- `src/text.rs` – the text operations the rest is stated over (UTF-8 lengths,
  whitespace splitting, trimming).
- `app/` – the HTTP server (axum), JSON shapes (serde), the async session service
  with the clock, UUIDs and the engine's timeout, and the board page.
- `tests/` – tests of the library, run against the real outside crates.
