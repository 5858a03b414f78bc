use std::sync::Arc;

use chess_education::board::{ChessMove, Piece, Position};
use chess_education::engine::{EngineDifficulty, SimpleEngine};
use chess_education::exercise::{
    Difficulty, ExerciseConfig, ExerciseRequest, ExerciseRules, ExerciseType, ObjectiveSpec, ObjectiveStatus,
    PositionSource, SessionMode, TrainingConfig,
};
use chess_education::generator::DefaultExerciseFactory;
use chess_education::repository::InMemorySessionRepository;
use chess_education::rules::ShakmatyRules;
use chess_education::service::{
    begin_move, create_session, deleted, engine_answered, finish_move, found, hint_step, is_claimable_draw,
    play_move_step, reset_session, snapshot, MoveStep, PlayAction, SessionError,
};
use chess_education::session::{ChessSession, HintResult, PlayMoveResult, SessionSnapshot, SessionStatus};

const NOW: i64 = 1_700_000_000_000_000_000;

struct Sessions {
    repository: InMemorySessionRepository,
    rules: ShakmatyRules,
    factory: DefaultExerciseFactory<ShakmatyRules>,
    engine: SimpleEngine<ShakmatyRules>,
    next_id: u128,
}

impl Sessions {
    fn new() -> Sessions {
        let rules = Arc::new(ShakmatyRules);
        Sessions {
            repository: InMemorySessionRepository::default(),
            rules: ShakmatyRules,
            factory: DefaultExerciseFactory::new(Arc::clone(&rules)),
            engine: SimpleEngine::new(rules),
            next_id: 1,
        }
    }

    fn create(&mut self, request: &ExerciseRequest) -> Result<SessionSnapshot, SessionError> {
        let id = self.next_id;
        self.next_id += 1;
        let session = create_session(&self.factory, request, id, NOW)?;
        self.repository.save(session.clone()).unwrap();
        snapshot(&self.rules, session, NOW)
    }

    fn load(&self, id: u128) -> Result<ChessSession, SessionError> {
        found(self.repository.get(id).unwrap())
    }

    fn get(&self, id: u128) -> Result<SessionSnapshot, SessionError> {
        snapshot(&self.rules, self.load(id)?, NOW + 5_000_000)
    }

    fn play(&mut self, id: u128, chess_move: ChessMove) -> Result<PlayMoveResult, SessionError> {
        let session = self.load(id)?;
        let (session, reply) = match play_move_step(&self.rules, session, &chess_move, NOW)? {
            PlayAction::Finish(session, reply) => (session, reply),
            PlayAction::AskEngine(session, position, level) => {
                let answer = self.engine.choose_move(&position, EngineDifficulty::educational_level(level)).unwrap();
                engine_answered(&self.rules, session, &answer, NOW)?
            }
        };
        self.repository.save(session).unwrap();
        reply
    }

    fn hint(&mut self, id: u128) -> Result<HintResult, SessionError> {
        let session = self.load(id)?;
        let (session, reply) = hint_step(&self.rules, &self.engine, session, NOW)?;
        self.repository.save(session).unwrap();
        Ok(reply)
    }

    fn reset(&mut self, id: u128) -> Result<SessionSnapshot, SessionError> {
        let session = reset_session(self.load(id)?, NOW + 1);
        self.repository.save(session.clone()).unwrap();
        snapshot(&self.rules, session, NOW + 1)
    }

    fn delete(&mut self, id: u128) -> Result<(), SessionError> {
        deleted(self.repository.delete(id).unwrap())
    }
}

fn mate_request() -> ExerciseRequest {
    ExerciseRequest {
        mode: SessionMode::Exercise,
        exercise: Some(ExerciseConfig {
            exercise_type: ExerciseType::Checkmate,
            difficulty: Difficulty::Beginner,
            max_moves: Some(1),
            position: None,
            objective: None,
            rules: ExerciseRules::default(),
            opponent: None,
        }),
        piece: None,
        difficulty: Difficulty::Beginner,
        config: TrainingConfig::default(),
        position: None,
        objective: None,
        player_color: None,
        opponent: None,
    }
}

fn plain_request(mode: SessionMode) -> ExerciseRequest {
    ExerciseRequest {
        mode,
        exercise: None,
        piece: None,
        difficulty: Difficulty::Beginner,
        config: TrainingConfig::default(),
        position: None,
        objective: None,
        player_color: None,
        opponent: None,
    }
}

#[test]
fn completes_a_data_driven_mate_in_one() {
    let mut service = Sessions::new();
    let session = service.create(&mate_request()).unwrap();
    let result = service.play(session.session_id, ChessMove::new("g6", "g7", None).unwrap()).unwrap();
    assert!(result.valid);
    assert_eq!(result.status, SessionStatus::Completed);
}

#[test]
fn keeps_sessions_isolated_and_tracks_errors() {
    let mut service = Sessions::new();
    let first = service.create(&mate_request()).unwrap();
    let second = service.create(&mate_request()).unwrap();
    let result = service.play(first.session_id, ChessMove::new("g6", "f4", None).unwrap()).unwrap();
    assert!(!result.valid);
    assert_eq!(result.metrics.incorrect_moves, 1);
    assert!(service.get(second.session_id).unwrap().history.is_empty());
}

#[test]
fn piece_training_produces_structured_hints() {
    let mut service = Sessions::new();
    let request = ExerciseRequest { piece: Some(Piece::Knight), ..plain_request(SessionMode::PieceTraining) };
    let session = service.create(&request).unwrap();
    let hint = service.hint(session.session_id).unwrap();
    assert_eq!(hint.hint.level, 1);
    assert_eq!(hint.hint.square.as_deref(), Some("b1"));
}

#[test]
fn a_new_session_starts_at_the_exercise_position() {
    let mut service = Sessions::new();
    let snap = service.create(&mate_request()).unwrap();
    assert_eq!(snap.status, SessionStatus::Created);
    assert_eq!(snap.board.fen, "7k/8/5KQ1/8/8/8/8/8 w - - 0 1");
    assert!(snap.history.is_empty());
    assert_eq!(snap.metrics.moves, 0);
    assert_eq!(snap.ui_url, "/play/00000000-0000-0000-0000-000000000001");
    assert!(snap.legal_moves.iter().any(|m| m.to_uci() == "g6g7"));
}

#[test]
fn the_duration_counts_whole_milliseconds() {
    let mut service = Sessions::new();
    let snap = service.create(&mate_request()).unwrap();
    assert_eq!(snap.metrics.duration_ms, 0);
    assert_eq!(service.get(snap.session_id).unwrap().metrics.duration_ms, 5);
}

#[test]
fn a_finished_session_refuses_moves_and_lists_none() {
    let mut service = Sessions::new();
    let snap = service.create(&mate_request()).unwrap();
    service.play(snap.session_id, ChessMove::new("g6", "g7", None).unwrap()).unwrap();
    let again = service.play(snap.session_id, ChessMove::new("f6", "f7", None).unwrap());
    assert!(matches!(again, Err(SessionError::NotPlayable)));
    let after = service.get(snap.session_id).unwrap();
    assert!(after.legal_moves.is_empty());
    assert_eq!(after.history.len(), 1);
    assert_eq!(after.history[0].fen_after, "7k/6Q1/5K2/8/8/8/8/8 b - - 1 1");
}

#[test]
fn a_move_that_misses_the_mate_fails_the_exercise() {
    let mut service = Sessions::new();
    let snap = service.create(&mate_request()).unwrap();
    let result = service.play(snap.session_id, ChessMove::new("g6", "g5", None).unwrap()).unwrap();
    assert!(result.valid);
    assert_eq!(result.status, SessionStatus::Failed);
    assert_eq!(result.metrics.incorrect_moves, 1);
    assert!(result.legal_moves.is_empty());
}

#[test]
fn the_move_limit_is_enforced() {
    let mut service = Sessions::new();
    let mut request = mate_request();
    request.exercise.as_mut().unwrap().rules.move_limit = 0;
    let snap = service.create(&request).unwrap();
    let result = service.play(snap.session_id, ChessMove::new("g6", "g7", None).unwrap());
    assert!(matches!(result, Err(SessionError::MoveLimitReached)));
}

#[test]
fn unknown_sessions_are_not_found() {
    let mut service = Sessions::new();
    assert!(matches!(service.get(42), Err(SessionError::NotFound)));
    assert!(matches!(service.hint(42), Err(SessionError::NotFound)));
    assert!(matches!(service.delete(42), Err(SessionError::NotFound)));
}

#[test]
fn delete_removes_a_session_once() {
    let mut service = Sessions::new();
    let snap = service.create(&mate_request()).unwrap();
    assert!(service.delete(snap.session_id).is_ok());
    assert!(matches!(service.get(snap.session_id), Err(SessionError::NotFound)));
    assert!(matches!(service.delete(snap.session_id), Err(SessionError::NotFound)));
}

#[test]
fn reset_returns_to_the_start() {
    let mut service = Sessions::new();
    let snap = service.create(&mate_request()).unwrap();
    service.play(snap.session_id, ChessMove::new("g6", "g5", None).unwrap()).unwrap();
    service.hint(snap.session_id).unwrap();
    let reset = service.reset(snap.session_id).unwrap();
    assert_eq!(reset.status, SessionStatus::Created);
    assert!(reset.history.is_empty());
    assert_eq!(reset.metrics.moves, 0);
    assert_eq!(reset.metrics.hints_used, 0);
    assert_eq!(reset.board.fen, "7k/8/5KQ1/8/8/8/8/8 w - - 0 1");
    assert!(!reset.legal_moves.is_empty());
}

#[test]
fn hints_rise_to_the_move_and_stay_there() {
    let mut service = Sessions::new();
    let request = ExerciseRequest { piece: Some(Piece::Knight), ..plain_request(SessionMode::PieceTraining) };
    let snap = service.create(&request).unwrap();
    let first = service.hint(snap.session_id).unwrap();
    let second = service.hint(snap.session_id).unwrap();
    assert_eq!(second.hint.level, 2);
    assert_eq!(second.hint.hint_type, "candidate_squares");
    assert_eq!(second.hint.square.as_deref(), Some("b1"));
    let mut squares = second.hint.squares.clone();
    squares.sort();
    assert_eq!(squares, vec!["a3".to_owned(), "c3".to_owned(), "d2".to_owned()]);
    let third = service.hint(snap.session_id).unwrap();
    assert_eq!(third.hint.level, 3);
    assert_eq!(third.hint.hint_type, "move");
    assert!(third.hint.square.is_none());
    assert_eq!(third.hint.chess_move.as_ref().map(|m| m.from.as_str().to_owned()).as_deref(), Some("b1"));
    let fourth = service.hint(snap.session_id).unwrap();
    assert_eq!(fourth.hint.level, 3);
    assert_eq!(first.metrics.hints_used, 1);
    assert_eq!(fourth.metrics.hints_used, 4);
}

#[test]
fn best_move_hint_names_the_move() {
    let mut service = Sessions::new();
    let request = ExerciseRequest {
        position: Some(PositionSource { fen: Some("7k/8/5KQ1/8/8/8/8/8 w - - 0 1".to_owned()), generator: None }),
        objective: Some(ObjectiveSpec::BestMove { uci: "g6g7".to_owned() }),
        ..plain_request(SessionMode::Exercise)
    };
    let snap = service.create(&request).unwrap();
    service.hint(snap.session_id).unwrap();
    service.hint(snap.session_id).unwrap();
    let third = service.hint(snap.session_id).unwrap();
    assert_eq!(third.hint.chess_move.unwrap().to_uci(), "g6g7");
}

#[test]
fn the_engine_answers_in_a_full_game() {
    let mut service = Sessions::new();
    let snap = service.create(&plain_request(SessionMode::FullGame)).unwrap();
    let result = service.play(snap.session_id, ChessMove::new("e2", "e4", None).unwrap()).unwrap();
    assert!(result.valid);
    assert_eq!(result.status, SessionStatus::InProgress);
    let answer = result.engine_move.unwrap();
    assert!(answer.from.as_str().ends_with('7') || answer.from.as_str().ends_with('8'));
    assert!(result.position.fen.contains(" w "));
    let after = service.get(snap.session_id).unwrap();
    assert_eq!(after.history.len(), 2);
    assert_eq!(after.history[1].ply, 2);
    assert_eq!(after.metrics.moves, 1);
}

#[test]
fn a_full_game_refuses_a_move_out_of_turn() {
    let mut service = Sessions::new();
    let snap = service.create(&ExerciseRequest {
        position: Some(PositionSource {
            fen: Some("rnbqkbnr/pppppppp/8/8/4P3/8/PPPP1PPP/RNBQKBNR b KQkq - 0 1".to_owned()),
            generator: None,
        }),
        ..plain_request(SessionMode::FullGame)
    });
    let snap = snap.unwrap();
    let result = service.play(snap.session_id, ChessMove::new("e7", "e5", None).unwrap());
    assert!(matches!(result, Err(SessionError::NotPlayerTurn)));
}

#[test]
fn a_repeated_full_game_position_is_a_draw() {
    let rules = ShakmatyRules;
    let factory = DefaultExerciseFactory::new(Arc::new(ShakmatyRules));
    let mut session = create_session(&factory, &plain_request(SessionMode::FreePlay), 7, NOW).unwrap();
    assert!(matches!(session.exercise.objective, ObjectiveSpec::PlayFullGame));
    let shuffle = ["g1f3", "g8f6", "f3g1", "f6g8", "g1f3", "g8f6", "f3g1", "f6g8"];
    let mut last = None;
    for uci in shuffle {
        let step = begin_move(&rules, session, &ChessMove::from_uci(uci).unwrap(), NOW).unwrap();
        session = match step {
            MoveStep::Accepted(s) => s,
            MoveStep::Rejected(_) => panic!("legal move refused"),
        };
        last = Some(is_claimable_draw(&session));
        session = finish_move(session, NOW);
        if session.status == SessionStatus::Completed {
            break;
        }
    }
    assert_eq!(last, Some(true));
    assert_eq!(session.status, SessionStatus::Completed);
    assert_eq!(session.objective.message_key, "draw_completed");
    assert_eq!(session.objective.status, ObjectiveStatus::Completed);
    assert_eq!(session.history.len(), 8);
}

#[test]
fn an_unknown_exercise_position_is_an_exercise_error() {
    let mut service = Sessions::new();
    let result = service.create(&ExerciseRequest {
        position: Some(PositionSource { fen: Some("not a fen".to_owned()), generator: None }),
        ..plain_request(SessionMode::Exercise)
    });
    match result {
        Err(SessionError::Exercise(message)) => assert!(message.starts_with("generated an invalid position")),
        other => panic!("unexpected: {other:?}"),
    }
}

#[test]
fn the_initial_position_lists_twenty_moves_in_a_snapshot() {
    let mut service = Sessions::new();
    let snap = service.create(&plain_request(SessionMode::FreePlay)).unwrap();
    assert_eq!(snap.board, Position::initial());
    assert_eq!(snap.legal_moves.len(), 20);
}

#[test]
fn the_repository_reads_back_what_was_saved() {
    let factory = DefaultExerciseFactory::new(Arc::new(ShakmatyRules));
    let mut repository = InMemorySessionRepository::default();
    let first = create_session(&factory, &mate_request(), 1, NOW).unwrap();
    let second = create_session(&factory, &plain_request(SessionMode::FreePlay), 2, NOW).unwrap();
    repository.save(first.clone()).unwrap();
    repository.save(second.clone()).unwrap();
    let mut changed = first.clone();
    changed.hint_level = 2;
    repository.save(changed).unwrap();
    assert_eq!(repository.get(1).unwrap().unwrap().hint_level, 2);
    assert_eq!(repository.get(2).unwrap().unwrap().position, second.position);
    assert!(repository.delete(1).unwrap());
    assert!(repository.get(1).unwrap().is_none());
    assert!(!repository.delete(1).unwrap());
    assert!(repository.get(2).unwrap().is_some());
}

#[test]
fn move_counters_add_up_over_a_session() {
    let mut service = Sessions::new();
    let snap = service.create(&plain_request(SessionMode::FullGame)).unwrap();
    let id = snap.session_id;
    service.play(id, ChessMove::new("e2", "e5", None).unwrap()).unwrap();
    service.play(id, ChessMove::new("e2", "e4", None).unwrap()).unwrap();
    service.hint(id).unwrap();
    service.play(id, ChessMove::new("a2", "a5", None).unwrap()).unwrap();
    let metrics = service.get(id).unwrap().metrics;
    assert_eq!(metrics.moves, 3);
    assert_eq!(metrics.moves, metrics.correct_moves + metrics.incorrect_moves);
    assert_eq!(metrics.incorrect_moves, 2);
    assert_eq!(metrics.hints_used, 1);
}

#[test]
fn the_engine_record_comes_with_the_engine_move() {
    let mut service = Sessions::new();
    let snap = service.create(&plain_request(SessionMode::FullGame)).unwrap();
    let result = service.play(snap.session_id, ChessMove::new("d2", "d4", None).unwrap()).unwrap();
    let stored = service.get(snap.session_id).unwrap();
    assert_eq!(stored.history.len(), 2);
    assert_eq!(Some(stored.history[1].chess_move.clone()), result.engine_move);
    assert_eq!(stored.board, result.position);
    let mut mate = Sessions::new();
    let snap = mate.create(&mate_request()).unwrap();
    let result = mate.play(snap.session_id, ChessMove::new("g6", "g7", None).unwrap()).unwrap();
    assert!(result.engine_move.is_none());
    assert_eq!(mate.get(snap.session_id).unwrap().history.len(), 1);
}
