use chess_education::api::{
    allowed_origins, color_name, configured_origins, exercise_request, is_hosted, launcher_url, local_dev_origins, looks_like_http_url,
    map_error, move_from_fields, origin_candidates, parse_difficulty, parse_exercise_type, parse_piece, play_url, public_api_base,
    status_name, ApiError, CreateSessionFields, GrpcCode, MoveRequest,
};
use chess_education::objective::valid_square;
use chess_education::board::{ChessError, Color, Piece};
use chess_education::engine::EngineError;
use chess_education::exercise::{Difficulty, ExerciseType, OpponentConfig, SessionMode};
use chess_education::repository::RepositoryError;
use chess_education::service::SessionError;
use chess_education::session::SessionStatus;

fn fields(mode: &str) -> CreateSessionFields {
    CreateSessionFields {
        mode: mode.to_owned(),
        exercise_type: String::new(),
        difficulty: String::new(),
        max_moves: 0,
        piece: String::new(),
        fen: String::new(),
        target: String::new(),
    }
}

#[test]
fn session_errors_map_to_http_answers() {
    let not_found = ApiError::from_session_error(SessionError::NotFound);
    assert_eq!((not_found.status, not_found.code), (404, "session_not_found"));
    assert_eq!(not_found.message, "session not found");
    let turn = ApiError::from_session_error(SessionError::NotPlayerTurn);
    assert_eq!((turn.status, turn.code), (409, "not_player_turn"));
    assert_eq!(turn.message, "it is not the player's turn");
    let limit = ApiError::from_session_error(SessionError::MoveLimitReached);
    assert_eq!((limit.status, limit.code), (409, "move_limit_reached"));
    let exercise = ApiError::from_session_error(SessionError::Exercise("bad".to_owned()));
    assert_eq!((exercise.status, exercise.code), (422, "invalid_chess_data"));
    assert_eq!(exercise.message, "exercise error: bad");
    let timeout = ApiError::from_session_error(SessionError::EngineTimeout);
    assert_eq!((timeout.status, timeout.code), (504, "engine_timeout"));
    assert_eq!(timeout.message, "engine search timed out");
    let storage = ApiError::from_session_error(SessionError::Repository(RepositoryError::Storage("disk".to_owned())));
    assert_eq!((storage.status, storage.code), (500, "internal_error"));
    assert_eq!(storage.message, "session storage failed: disk");
    let engine = ApiError::from_session_error(SessionError::Engine(EngineError::NoLegalMoves));
    assert_eq!(engine.message, "the position has no legal moves");
    let task = ApiError::from_session_error(SessionError::EngineTask);
    assert_eq!((task.status, task.message.as_str()), (500, "engine task failed"));
}

#[test]
fn invalid_input_is_unprocessable() {
    let error = ApiError::invalid_input("bad square");
    assert_eq!((error.status, error.code, error.message.as_str()), (422, "invalid_input", "bad square"));
    let chess = ApiError::from_chess_error(ChessError::InvalidSquare("z9".to_owned()));
    assert_eq!((chess.status, chess.code), (422, "invalid_input"));
    assert!(chess.message.contains("z9"));
}

#[test]
fn grpc_errors_hide_internal_text() {
    assert_eq!(map_error(SessionError::NotFound), (GrpcCode::NotFound, "session not found".to_owned()));
    assert_eq!(map_error(SessionError::NotPlayable).0, GrpcCode::FailedPrecondition);
    assert_eq!(map_error(SessionError::Exercise("x".to_owned())).0, GrpcCode::InvalidArgument);
    assert_eq!(map_error(SessionError::EngineTimeout).0, GrpcCode::DeadlineExceeded);
    assert_eq!(map_error(SessionError::EngineTask), (GrpcCode::Internal, "internal service error".to_owned()));
}

#[test]
fn wire_names_of_statuses_and_colors() {
    assert_eq!(status_name(SessionStatus::Created), "created");
    assert_eq!(status_name(SessionStatus::InProgress), "in_progress");
    assert_eq!(status_name(SessionStatus::Completed), "completed");
    assert_eq!(status_name(SessionStatus::Failed), "failed");
    assert_eq!(status_name(SessionStatus::Abandoned), "abandoned");
    assert_eq!(color_name(Color::White), "white");
    assert_eq!(color_name(Color::Black), "black");
}

#[test]
fn http_urls_are_recognised() {
    assert!(looks_like_http_url("http://localhost:4173"));
    assert!(looks_like_http_url("https://example.org"));
    assert!(!looks_like_http_url("ftp://example.org"));
    assert!(!looks_like_http_url("https://a\nb"));
}

#[test]
fn origins_are_split_trimmed_and_filtered() {
    assert_eq!(
        origin_candidates(" http://a.test , *, ,https://b.test"),
        vec!["http://a.test".to_owned(), "https://b.test".to_owned()]
    );
    assert!(origin_candidates("").is_empty());
}

#[test]
fn origins_fall_back_by_environment() {
    let configured = vec!["https://app.test".to_owned()];
    assert_eq!(allowed_origins(configured.clone(), true), configured);
    assert_eq!(allowed_origins(Vec::new(), true), vec!["https://invalid.invalid".to_owned()]);
    let local = allowed_origins(Vec::new(), false);
    assert_eq!(local, local_dev_origins());
    assert_eq!(local.len(), 8);
    assert_eq!(local[0], "http://localhost:4173");
    assert!(is_hosted(true, None));
    assert!(is_hosted(false, Some("production")));
    assert!(!is_hosted(false, Some("development")));
    assert!(!is_hosted(false, None));
}

#[test]
fn the_public_base_prefers_the_configured_url() {
    assert_eq!(public_api_base(Some(" https://api.test/ "), Some("other.test")), Some("https://api.test".to_owned()));
    assert_eq!(public_api_base(Some("not a url"), Some("https://rail.test/")), Some("https://rail.test".to_owned()));
    assert_eq!(public_api_base(None, Some("rail.test/extra")), None);
    assert_eq!(public_api_base(None, None), None);
}

#[test]
fn play_urls_and_launcher() {
    assert_eq!(play_url(1, None), "/play/00000000-0000-0000-0000-000000000001");
    assert_eq!(play_url(255, Some("https://api.test")), "https://api.test/play/00000000-0000-0000-0000-0000000000ff");
    assert_eq!(launcher_url(Some("https://app.test")), "https://app.test");
    assert_eq!(launcher_url(Some("app.test")), "");
    assert_eq!(launcher_url(None), "");
}

#[test]
fn names_are_read_in_any_case() {
    assert_eq!(parse_piece("KNIGHT"), Ok(Piece::Knight));
    assert_eq!(parse_piece("dragon").unwrap_err().message, "unknown piece");
    assert_eq!(parse_difficulty(""), Ok(Difficulty::Beginner));
    assert_eq!(parse_difficulty("Advanced"), Ok(Difficulty::Advanced));
    assert_eq!(parse_difficulty("hard").unwrap_err().message, "unknown difficulty");
    assert_eq!(parse_exercise_type("Check_Escape"), Ok(ExerciseType::CheckEscape));
    assert_eq!(parse_exercise_type("chess").unwrap_err().message, "unknown exercise type");
}

#[test]
fn plain_fields_build_a_request() {
    let request = exercise_request(CreateSessionFields {
        exercise_type: "checkmate".to_owned(),
        max_moves: 2,
        fen: "7k/8/5KQ1/8/8/8/8/8 w - - 0 1".to_owned(),
        target: "c3".to_owned(),
        ..fields("exercise")
    })
    .unwrap();
    assert_eq!(request.mode, SessionMode::Exercise);
    let exercise = request.exercise.unwrap();
    assert_eq!(exercise.exercise_type, ExerciseType::Checkmate);
    assert_eq!(exercise.max_moves, Some(2));
    assert_eq!(exercise.position.unwrap().fen.as_deref(), Some("7k/8/5KQ1/8/8/8/8/8 w - - 0 1"));
    assert_eq!(request.config.target.as_deref(), Some("c3"));
    assert_eq!(request.player_color, Some(Color::White));
    assert!(request.opponent.is_none());
    let game = exercise_request(fields("full_game")).unwrap();
    assert!(matches!(game.opponent, Some(OpponentConfig::Engine { difficulty: 2 })));
    assert!(game.exercise.is_none());
}

#[test]
fn plain_fields_are_refused_in_order() {
    assert_eq!(exercise_request(fields("blitz")).unwrap_err().message, "unknown mode: blitz");
    let bad_difficulty = CreateSessionFields { difficulty: "hard".to_owned(), piece: "dragon".to_owned(), ..fields("") };
    assert_eq!(exercise_request(bad_difficulty).unwrap_err().message, "unknown difficulty");
    let bad_piece = CreateSessionFields { piece: "dragon".to_owned(), exercise_type: "nope".to_owned(), ..fields("") };
    assert_eq!(exercise_request(bad_piece).unwrap_err().message, "unknown piece");
    let bad_type = CreateSessionFields { exercise_type: "nope".to_owned(), ..fields("") };
    assert_eq!(exercise_request(bad_type).unwrap_err().message, "unknown exercise type");
}

#[test]
fn moves_are_read_from_plain_fields() {
    let plain = move_from_fields("E2", "e4", "").unwrap();
    assert_eq!(plain.to_uci(), "e2e4");
    let promotion = move_from_fields("a7", "a8", "Queen").unwrap();
    assert_eq!(promotion.to_uci(), "a7a8q");
    assert_eq!(move_from_fields("a7", "a8", "dragon").unwrap_err().message, "unknown piece");
    assert_eq!(move_from_fields("a7", "a8", "king").unwrap_err().message, "invalid promotion piece");
    assert_eq!(move_from_fields("z9", "a8", "").unwrap_err().message, "invalid square: z9");
}

#[test]
fn a_move_request_names_a_move() {
    let request = MoveRequest { from: "g6".to_owned(), to: "G7".to_owned(), promotion: None };
    assert_eq!(request.chess_move().unwrap().to_uci(), "g6g7");
    let bad = MoveRequest { from: "g6".to_owned(), to: "g9".to_owned(), promotion: None };
    assert!(matches!(bad.chess_move(), Err(ChessError::InvalidSquare(_))));
    let pawn = MoveRequest { from: "a7".to_owned(), to: "a8".to_owned(), promotion: Some(Piece::Pawn) };
    assert!(matches!(pawn.chess_move(), Err(ChessError::InvalidPromotion)));
}

#[test]
fn square_names_are_recognised() {
    assert!(valid_square("e4"));
    assert!(valid_square("H8"));
    assert!(!valid_square("i1"));
    assert!(!valid_square("e44"));
}

#[test]
fn configured_origins_keep_valid_header_values() {
    assert_eq!(configured_origins(Some(" https://a.vercel.app , * ,"), None), vec!["https://a.vercel.app".to_owned()]);
    assert_eq!(configured_origins(None, Some("https://b.test")), vec!["https://b.test".to_owned()]);
    assert_eq!(configured_origins(Some("https://a.test"), Some("https://b.test")), vec!["https://a.test".to_owned()]);
    assert_eq!(configured_origins(Some("https://a\u{7f}b, https://c.test"), None), vec!["https://c.test".to_owned()]);
    assert!(configured_origins(None, None).is_empty());
}
