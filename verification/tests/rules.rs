use chess_education::board::{ChessError, ChessMove, Color, Piece, Position};
use chess_education::rules::{ChessRulesEngine, ShakmatyRules};

fn rules() -> ShakmatyRules {
    ShakmatyRules
}

#[test]
fn initial_position_has_twenty_moves() {
    assert_eq!(rules().legal_moves(&Position::initial()).unwrap().len(), 20);
}

#[test]
fn applies_legal_move_and_rejects_illegal_move() {
    let next = rules()
        .apply_move(&Position::initial(), &ChessMove::new("e2", "e4", None).unwrap())
        .unwrap();
    assert!(next.fen.contains(" b KQkq"));

    let error = rules()
        .apply_move(&Position::initial(), &ChessMove::new("e2", "e5", None).unwrap())
        .unwrap_err();
    assert!(matches!(error, ChessError::IllegalMove(_)));
}

#[test]
fn recognizes_checkmate_and_stalemate() {
    let mate = Position::from_fen("7k/6Q1/6K1/8/8/8/8/8 b - - 0 1").unwrap();
    assert!(rules().status(&mate).unwrap().checkmate);

    let stalemate = Position::from_fen("7k/5Q2/6K1/8/8/8/8/8 b - - 0 1").unwrap();
    assert!(rules().status(&stalemate).unwrap().stalemate);
}

#[test]
fn supports_castling_en_passant_and_promotion() {
    let castle = Position::from_fen("r3k2r/8/8/8/8/8/8/R3K2R w KQkq - 0 1").unwrap();
    let moves = rules().legal_moves(&castle).unwrap();
    assert!(moves.iter().any(|chess_move| chess_move.to_uci() == "e1g1"));

    let en_passant = Position::from_fen("4k3/8/8/3pP3/8/8/8/4K3 w - d6 0 2").unwrap();
    let moves = rules().legal_moves(&en_passant).unwrap();
    assert!(moves.iter().any(|chess_move| chess_move.to_uci() == "e5d6"));

    let promotion = Position::from_fen("4k3/P7/8/8/8/8/8/4K3 w - - 0 1").unwrap();
    let moves = rules().legal_moves(&promotion).unwrap();
    assert!(moves.iter().any(|chess_move| chess_move.to_uci() == "a7a8q"));
}

fn perft(rules: &ShakmatyRules, position: &Position, depth: u8) -> u64 {
    if depth == 0 {
        return 1;
    }
    rules
        .legal_moves(position)
        .unwrap()
        .into_iter()
        .map(|chess_move| {
            let next = rules.apply_move(position, &chess_move).unwrap();
            perft(rules, &next, depth - 1)
        })
        .sum()
}

#[test]
fn standard_position_matches_perft_reference() {
    assert_eq!(perft(&rules(), &Position::initial(), 1), 20);
    assert_eq!(perft(&rules(), &Position::initial(), 2), 400);
    assert_eq!(perft(&rules(), &Position::initial(), 3), 8_902);
}

#[test]
fn exposes_fifty_move_and_repetition_data() {
    let position = Position::from_fen("8/8/8/8/8/8/4K3/7k w - - 100 51").unwrap();
    assert!(position.is_fifty_move_draw());
    assert_eq!(position.repetition_key().as_deref(), Some("8/8/8/8/8/8/4K3/7k w - -"));
}

#[test]
fn every_reported_initial_move_produces_a_valid_position() {
    let rules = rules();
    let position = Position::initial();
    for index in 0..20 {
        let chess_move = rules.legal_moves(&position).unwrap()[index].clone();
        let next = rules.apply_move(&position, &chess_move).unwrap();
        assert!(rules.validate_position(&next).is_ok());
    }
}

#[test]
fn material_balance_weighs_pieces() {
    let position = Position::from_fen("4k3/8/8/8/8/8/8/RN2K3 w - - 0 1").unwrap();
    assert_eq!(rules().material_balance(&position, Color::White).unwrap(), 820);
    assert_eq!(rules().material_balance(&position, Color::Black).unwrap(), -820);
}

#[test]
fn piece_at_reads_the_board() {
    let position = Position::initial();
    let square = chess_education::board::Square::new("B1").unwrap();
    let found = rules().piece_at(&position, &square).unwrap().unwrap();
    assert_eq!(found.piece, Piece::Knight);
    assert_eq!(found.color, Color::White);
    let empty = chess_education::board::Square::new("e4").unwrap();
    assert!(rules().piece_at(&position, &empty).unwrap().is_none());
}

#[test]
fn invalid_fen_is_refused() {
    assert!(matches!(Position::from_fen("not a fen"), Err(ChessError::InvalidFen(_))));
    assert!(matches!(rules().validate_position(&Position { fen: "x".to_owned() }), Err(ChessError::InvalidFen(_))));
}
