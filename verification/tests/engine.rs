use std::sync::Arc;

use chess_education::board::{ChessMove, Position};
use chess_education::engine::{pick_move, ChessAi, EngineDifficulty, EngineError, SimpleEngine};
use chess_education::rules::{ChessRulesEngine, ShakmatyRules};

#[test]
fn always_returns_a_legal_move() {
    let rules = Arc::new(ShakmatyRules);
    let engine = SimpleEngine::new(Arc::clone(&rules));
    let position = Position::initial();
    let selected = engine.select_move(&position, EngineDifficulty::educational_level(1)).unwrap();
    assert!(rules.legal_moves(&position).unwrap().contains(&selected));
}

#[test]
fn finds_mate_in_one() {
    let engine = SimpleEngine::new(Arc::new(ShakmatyRules));
    let position = Position::from_fen("7k/8/5KQ1/8/8/8/8/8 w - - 0 1").unwrap();
    let selected = engine.select_move(&position, EngineDifficulty::educational_level(5)).unwrap();
    let after = ShakmatyRules.apply_move(&position, &selected).unwrap();
    assert!(ShakmatyRules.status(&after).unwrap().checkmate);
}

#[test]
fn no_legal_moves_is_an_error() {
    let engine = SimpleEngine::new(Arc::new(ShakmatyRules));
    let mated = Position::from_fen("7k/6Q1/6K1/8/8/8/8/8 b - - 0 1").unwrap();
    assert!(matches!(engine.select_move(&mated, EngineDifficulty::default()), Err(EngineError::NoLegalMoves)));
}

#[test]
fn picks_among_the_best_by_seed() {
    let a = ChessMove::new("a2", "a3", None).unwrap();
    let b = ChessMove::new("b2", "b3", None).unwrap();
    let c = ChessMove::new("c2", "c3", None).unwrap();
    let scored = vec![(a.clone(), 5), (b.clone(), 9), (c.clone(), 9)];
    // Sorted best first and stable: b, c, a. Half of three rounds to two alternatives.
    assert_eq!(pick_move(scored.clone(), 500, 0), b);
    assert_eq!(pick_move(scored.clone(), 500, 1), c);
    assert_eq!(pick_move(scored.clone(), 500, 2), b);
    assert_eq!(pick_move(scored, 0, 7), b);
}

#[test]
fn levels_are_clamped() {
    assert_eq!(EngineDifficulty::educational_level(0), EngineDifficulty::educational_level(1));
    assert_eq!(EngineDifficulty::educational_level(9).search_depth, Some(4));
    assert_eq!(EngineDifficulty::educational_level(3), EngineDifficulty::default());
}
