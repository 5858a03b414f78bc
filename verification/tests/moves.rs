use chess_education::board::{repetition_key, ChessError, ChessMove, Color, Piece, Position, Square};

#[test]
fn squares_are_lowercased_and_checked() {
    assert_eq!(Square::new("E4").unwrap().as_str(), "e4");
    assert!(matches!(Square::new("i9"), Err(ChessError::InvalidSquare(s)) if s == "i9"));
    assert!(matches!(Square::new("A10"), Err(ChessError::InvalidSquare(s)) if s == "a10"));
}

#[test]
fn moves_round_trip_through_uci() {
    let m = ChessMove::from_uci("a7a8Q").unwrap();
    assert_eq!(m.promotion, Some(Piece::Queen));
    assert_eq!(m.to_uci(), "a7a8q");
    assert_eq!(ChessMove::from_uci("e2e4").unwrap().to_uci(), "e2e4");
}

#[test]
fn uci_errors_are_reported() {
    assert!(matches!(ChessMove::from_uci("e2"), Err(ChessError::InvalidMove(s)) if s == "e2"));
    assert!(matches!(ChessMove::from_uci("e2e4x"), Err(ChessError::InvalidPromotion)));
    assert!(matches!(ChessMove::from_uci("z2e4"), Err(ChessError::InvalidSquare(s)) if s == "z2"));
    assert!(matches!(ChessMove::new("e7", "e8", Some(Piece::King)), Err(ChessError::InvalidPromotion)));
    // Two bytes for the first character: the byte-based cut gives "é" and "e4".
    assert!(matches!(ChessMove::from_uci("ée4"), Err(ChessError::InvalidSquare(s)) if s == "é"));
}

#[test]
fn colors_alternate() {
    assert_eq!(Color::White.opposite(), Color::Black);
    assert_eq!(Color::Black.opposite(), Color::White);
}

#[test]
fn halfmove_clock_is_read_from_the_fifth_field() {
    let p = Position { fen: "8/8/8/8/8/8/4K3/7k w - - +42 51".to_owned() };
    assert_eq!(p.halfmove_clock(), Some(42));
    assert!(!p.is_fifty_move_draw());
    let short = Position { fen: "8/8 w".to_owned() };
    assert_eq!(short.halfmove_clock(), None);
    assert_eq!(short.repetition_key(), None);
    assert_eq!(repetition_key("  a \t b  c d e"), Some("a b c d".to_owned()));
}

#[test]
fn error_messages_read_like_the_display_texts() {
    assert_eq!(ChessError::InvalidSquare("z9".to_owned()).message(), "invalid square: z9");
    assert_eq!(ChessError::InvalidPromotion.message(), "invalid promotion piece");
}

#[test]
fn every_move_reads_back_from_its_uci() {
    let files = ["a", "b", "c", "d", "e", "f", "g", "h"];
    let promotions = [None, Some(Piece::Queen), Some(Piece::Rook), Some(Piece::Bishop), Some(Piece::Knight)];
    for from_file in files {
        for to_file in files {
            for rank in 1..=8 {
                let from = format!("{from_file}{rank}");
                let to = format!("{to_file}{}", 9 - rank);
                for promotion in promotions {
                    let m = ChessMove::new(&from, &to, promotion).unwrap();
                    assert_eq!(ChessMove::from_uci(&m.to_uci()).unwrap(), m);
                }
            }
        }
    }
}

#[test]
fn a_move_text_cut_inside_a_character_is_no_move() {
    assert!(matches!(ChessMove::from_uci("a\u{e9}7"), Err(ChessError::InvalidMove(s)) if s == "a\u{e9}7"));
    assert!(matches!(ChessMove::from_uci("e\u{e9}4"), Err(ChessError::InvalidMove(_))));
    assert!(matches!(ChessMove::from_uci("e2\u{e9}"), Err(ChessError::InvalidSquare(s)) if s == "\u{e9}"));
}
