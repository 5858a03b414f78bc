use std::sync::Arc;

use chess_education::board::{Piece, Position};
use chess_education::exercise::{
    Difficulty, ExerciseRequest, ExerciseType, ObjectiveSpec, PositionSource, SessionMode, TrainingConfig,
};
use chess_education::generator::{DefaultExerciseFactory, ExerciseFactory};
use chess_education::rules::{ChessRulesEngine, ShakmatyRules};

fn request(mode: SessionMode, piece: Option<Piece>) -> ExerciseRequest {
    ExerciseRequest {
        mode,
        exercise: None,
        piece,
        difficulty: Difficulty::Beginner,
        config: TrainingConfig::default(),
        position: None,
        objective: None,
        player_color: None,
        opponent: None,
    }
}

#[test]
fn creates_piece_training_from_data() {
    let factory = DefaultExerciseFactory::new(Arc::new(ShakmatyRules));
    let exercise = factory.create(&request(SessionMode::PieceTraining, Some(Piece::Knight))).unwrap();
    assert_eq!(exercise.exercise_type, ExerciseType::PieceMovement);
    assert!(matches!(exercise.objective, ObjectiveSpec::MovePiece { .. }));
}

#[test]
fn bishop_training_target_is_reachable_in_one_move() {
    let factory = DefaultExerciseFactory::new(Arc::new(ShakmatyRules));
    let exercise = factory
        .create(&ExerciseRequest {
            config: TrainingConfig { target: Some("g5".to_owned()), ..TrainingConfig::default() },
            ..request(SessionMode::PieceTraining, Some(Piece::Bishop))
        })
        .unwrap();
    assert_eq!(exercise.initial_position.fen, "4k3/8/8/8/8/8/3B4/4K3 w - - 0 1");
    let moves = ShakmatyRules.legal_moves(&exercise.initial_position).unwrap();
    assert!(moves.iter().any(|chess_move| chess_move.to.as_str() == "g5"));
}

#[test]
fn creates_promotion_from_supplied_position() {
    let factory = DefaultExerciseFactory::new(Arc::new(ShakmatyRules));
    let exercise = factory
        .create(&ExerciseRequest {
            position: Some(PositionSource {
                fen: Some("4k3/P7/8/8/8/8/8/4K3 w - - 0 1".to_owned()),
                generator: None,
            }),
            objective: Some(ObjectiveSpec::Promote),
            ..request(SessionMode::Exercise, None)
        })
        .unwrap();
    assert!(matches!(exercise.objective, ObjectiveSpec::Promote));
}

#[test]
fn defaults_follow_the_exercise_type() {
    let factory = DefaultExerciseFactory::new(Arc::new(ShakmatyRules));
    let puzzle = factory.create(&request(SessionMode::Exercise, None)).unwrap();
    assert!(matches!(puzzle.objective, ObjectiveSpec::Checkmate { max_moves: Some(1) }));
    assert_eq!(puzzle.title_key, "exercise_checkmate");
    assert_eq!(puzzle.initial_position.fen, "7k/8/5KQ1/8/8/8/8/8 w - - 0 1");
    let game = factory.create(&request(SessionMode::FullGame, None)).unwrap();
    assert!(matches!(game.opponent, Some(chess_education::exercise::OpponentConfig::Engine { difficulty: 2 })));
    assert_eq!(game.initial_position, Position::initial());
    assert_eq!(game.title_key, "exercise_play_full_game");
}

#[test]
fn a_bad_supplied_fen_is_an_invalid_position() {
    let factory = DefaultExerciseFactory::new(Arc::new(ShakmatyRules));
    let result = factory.create(&ExerciseRequest {
        position: Some(PositionSource { fen: Some("nonsense".to_owned()), generator: None }),
        ..request(SessionMode::Exercise, None)
    });
    assert!(matches!(result, Err(chess_education::generator::ExerciseError::InvalidPosition(_))));
}
