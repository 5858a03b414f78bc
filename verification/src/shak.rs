//! The calls into `shakmaty`, each behind a trusted item whose contract names its result.
use std::str::FromStr;

use shakmaty::Position as _;
use vstd::prelude::*;

use crate::board::{is_square_name, square_number, uci_shaped, ChessError, ChessFault, Color, Piece, PieceOnSquare};

verus! {

/// `shakmaty::Chess`, declared so that a parsed position can be handed between calls.
#[verifier::external_type_specification]
#[verifier::external_body]
pub struct ExChess(shakmaty::Chess);

/// Why `Fen::from_str` refuses a text, as the error's text; `None` when it reads it.
pub uninterp spec fn fen_syntax_error(text: Seq<char>) -> Option<Seq<char>>;

/// Why `Fen::into_position::<Chess>` (standard castling) refuses the FEN read from a
/// text, as the error's text; `None` when it sets the position up.
pub uninterp spec fn setup_error(text: Seq<char>) -> Option<Seq<char>>;

/// Why reading and setting up a FEN fails, if it does.
pub open spec fn fen_rejection(fen: Seq<char>) -> Option<Seq<char>> {
    match fen_syntax_error(fen) {
        Some(message) => Some(message),
        None => setup_error(fen),
    }
}

/// The moves `Chess::legal_moves` lists, each written by `UciMove::from_move`
/// (standard castling) and `Display`, in the order of the list.
pub uninterp spec fn legal_uci_texts(fen: Seq<char>) -> Seq<Seq<char>>;

/// A file letter of a UCI text (`File::from_char`).
pub open spec fn file_char(c: char) -> bool {
    'a' <= c && c <= 'h'
}

/// A rank digit of a UCI text (`Rank::from_char`).
pub open spec fn rank_char(c: char) -> bool {
    '1' <= c && c <= '8'
}

/// A role letter of a UCI text, in either case (`Role::from_char`).
pub open spec fn role_char(c: char) -> bool {
    c == 'p' || c == 'P' || c == 'n' || c == 'N' || c == 'b' || c == 'B' || c == 'r' || c == 'R' || c == 'q' || c
        == 'Q' || c == 'k' || c == 'K'
}

/// Whether `UciMove::from_str` (`UciMove::from_ascii`) reads a text: four bytes that
/// are `0000`, a role letter, `@` and a square, or two squares; or five bytes that are
/// two squares and a role letter. Every byte it accepts is ASCII, so the text's
/// characters are its bytes.
pub open spec fn uci_readable(u: Seq<char>) -> bool {
    ||| u.len() == 4 && (u == seq!['0', '0', '0', '0'] || (u[1] == '@' && role_char(u[0]) && file_char(u[2])
        && rank_char(u[3])) || (file_char(u[0]) && rank_char(u[1]) && file_char(u[2]) && rank_char(u[3])))
    ||| u.len() == 5 && file_char(u[0]) && rank_char(u[1]) && file_char(u[2]) && rank_char(u[3]) && role_char(u[4])
}

/// Whether `UciMove::to_move` finds the move a text reads as legal in a position.
pub uninterp spec fn uci_legal(fen: Seq<char>, uci: Seq<char>) -> bool;

/// What `Chess::play` of that legal move gives, as the FEN of the result
/// (`Fen::from_position` with `EnPassantMode::Legal`, written by `Display`); `None`
/// when `play` refuses the move.
pub uninterp spec fn played(fen: Seq<char>, uci: Seq<char>) -> Option<Seq<char>>;

/// `Chess::turn`.
pub uninterp spec fn turn_of(fen: Seq<char>) -> Color;

/// `Chess::is_check`.
pub uninterp spec fn check_of(fen: Seq<char>) -> bool;

/// `Chess::is_checkmate`.
pub uninterp spec fn checkmate_of(fen: Seq<char>) -> bool;

/// `Chess::is_stalemate`.
pub uninterp spec fn stalemate_of(fen: Seq<char>) -> bool;

/// `Chess::is_game_over`.
pub uninterp spec fn game_over_of(fen: Seq<char>) -> bool;

/// `Board::piece_at` on the square with the given number.
pub uninterp spec fn occupant(fen: Seq<char>, square: u32) -> Option<PieceOnSquare>;

/// `(Board::by_color & Board::by_role).count()`: how many pieces of a kind a side has.
pub uninterp spec fn piece_count(fen: Seq<char>, color: Color, piece: Piece) -> u8;

/// How many pieces of a kind a side has beyond a number.
pub open spec fn beyond(count: u8, allowed: int) -> int {
    if count > allowed {
        count - allowed
    } else {
        0
    }
}

/// A side's material could come from the starting set by promotions: its pawns and
/// its pieces beyond one queen, two rooks, two knights and two bishops number at most
/// eight.
pub open spec fn standard_material(fen: Seq<char>, color: Color) -> bool {
    piece_count(fen, color, Piece::Pawn) + beyond(piece_count(fen, color, Piece::Queen), 1) + beyond(
        piece_count(fen, color, Piece::Rook),
        2,
    ) + beyond(piece_count(fen, color, Piece::Knight), 2) + beyond(piece_count(fen, color, Piece::Bishop), 2) <= 8
}

/// `shakmaty::fen::Fen`, declared so that a read FEN can be set up.
#[verifier::external_type_specification]
#[verifier::external_body]
pub struct ExFen(shakmaty::fen::Fen);

/// `shakmaty::uci::UciMove`, declared so that a read move can be checked.
#[verifier::external_type_specification]
#[verifier::external_body]
pub struct ExUciMove(shakmaty::uci::UciMove);

/// `shakmaty::Move`, declared so that a legal move can be played.
#[verifier::external_type_specification]
#[verifier::external_body]
pub struct ExMove(shakmaty::Move);

/// A FEN that `shakmaty` read, with the text it was read from.
pub struct ReadFen {
    fen: shakmaty::fen::Fen,
    text: Ghost<Seq<char>>,
}

impl ReadFen {
    /// The text the FEN was read from.
    pub closed spec fn text(&self) -> Seq<char> {
        self.text@
    }
}

/// A UCI move that `shakmaty` read, with its text.
pub struct ReadMove {
    uci: shakmaty::uci::UciMove,
    text: Ghost<Seq<char>>,
}

impl ReadMove {
    /// The text the move was read from.
    pub closed spec fn text(&self) -> Seq<char> {
        self.text@
    }
}

/// A move that `shakmaty` found legal, with the position and the text it came from.
pub struct LegalMove {
    m: shakmaty::Move,
    fen: Ghost<Seq<char>>,
    text: Ghost<Seq<char>>,
}

impl LegalMove {
    /// The FEN of the position the move is legal in.
    pub closed spec fn fen(&self) -> Seq<char> {
        self.fen@
    }

    /// The UCI text the move was read from.
    pub closed spec fn text(&self) -> Seq<char> {
        self.text@
    }
}

/// A position that `shakmaty` set up, with the FEN it was read from.
pub struct ParsedPosition {
    chess: shakmaty::Chess,
    fen: Ghost<Seq<char>>,
}

impl ParsedPosition {
    /// The FEN the position was read from.
    pub closed spec fn fen(&self) -> Seq<char> {
        self.fen@
    }
}

/// `shakmaty::Square::from_str` accepts exactly a file letter `a`..`h` followed by a
/// rank digit `1`..`8`; the square's number (`Square::to_u32`) is `file + 8 * rank`.
#[verifier::external_body]
pub(crate) fn square_index(name: &str) -> (res: Option<u32>)
    ensures
        res == (if is_square_name(name@) { Some(square_number(name@)) } else { None::<u32> }),
{
    match shakmaty::Square::from_str(name) {
        Ok(square) => Some(square.to_u32()),
        Err(_) => None,
    }
}

/// `Fen::from_str`; a refusal gives the error's text.
#[verifier::external_body]
fn read_fen(text: &str) -> (res: Result<ReadFen, String>)
    ensures
        match res {
            Ok(read) => fen_syntax_error(text@) is None && read.text() == text@,
            Err(message) => fen_syntax_error(text@) == Some(message@),
        },
{
    match shakmaty::fen::Fen::from_str(text) {
        Ok(fen) => Ok(ReadFen { fen, text: Ghost(text@) }),
        Err(error) => Err(error.to_string()),
    }
}

/// `Fen::into_position::<Chess>(CastlingMode::Standard)`; a refusal gives the error's text.
/// A position it sets up passed `validate`, whose material check (`is_standard_material`,
/// which counts bishops beyond one per square colour) implies `standard_material`
/// for both sides.
#[verifier::external_body]
fn set_up(read: ReadFen) -> (res: Result<ParsedPosition, String>)
    ensures
        match res {
            Ok(position) => setup_error(read.text()) is None && position.fen() == read.text() && standard_material(
                read.text(),
                Color::White,
            ) && standard_material(read.text(), Color::Black),
            Err(message) => setup_error(read.text()) == Some(message@),
        },
{
    match read.fen.into_position(shakmaty::CastlingMode::Standard) {
        Ok(chess) => Ok(ParsedPosition { chess, fen: Ghost(read.text@) }),
        Err(error) => Err(error.to_string()),
    }
}

/// Reads a FEN and sets the position up; a refusal of either step is `InvalidFen`
/// with the error's text.
pub(crate) fn parse_position(fen: &str) -> (res: Result<ParsedPosition, ChessError>)
    ensures
        res is Ok <==> fen_rejection(fen@) is None,
        res matches Ok(p) ==> p.fen() == fen@,
        res matches Ok(p) ==> standard_material(fen@, Color::White) && standard_material(fen@, Color::Black),
        res matches Err(e) ==> e@ == ChessFault::InvalidFen(fen_rejection(fen@)->0),
{
    let read = match read_fen(fen) {
        Ok(read) => read,
        Err(message) => return Err(ChessError::InvalidFen(message)),
    };
    match set_up(read) {
        Ok(position) => Ok(position),
        Err(message) => Err(ChessError::InvalidFen(message)),
    }
}

/// `Chess::legal_moves`, each move written with `UciMove::from_move` (standard castling)
/// and `Display`. Each text is two square names and, for a promotion, the letter of a
/// queen, rook, bishop or knight (`UciMove::append_to`, `Role::char`); read back by
/// `UciMove::from_str`, `UciMove::to_move` gives back the listed move, which is legal
/// (`to_move` returns only moves that pass `is_legal`), and `Chess::play` accepts it
/// (it refuses only moves that fail `is_legal`).
#[verifier::external_body]
pub(crate) fn legal_move_texts(position: &ParsedPosition) -> (res: Vec<String>)
    ensures
        res@.map_values(|s: String| s@) == legal_uci_texts(position.fen()),
        forall|i: int|
            0 <= i < res@.len() ==> {
                &&& uci_shaped(#[trigger] res@[i]@)
                &&& uci_legal(position.fen(), res@[i]@)
                &&& played(position.fen(), res@[i]@) is Some
            },
{
    position
        .chess
        .legal_moves()
        .iter()
        .map(|m| shakmaty::uci::UciMove::from_move(*m, shakmaty::CastlingMode::Standard).to_string())
        .collect()
}

/// `UciMove::from_str`.
#[verifier::external_body]
pub(crate) fn read_uci(text: &str) -> (res: Option<ReadMove>)
    ensures
        res is Some <==> uci_readable(text@),
        res matches Some(read) ==> read.text() == text@,
{
    match shakmaty::uci::UciMove::from_str(text) {
        Ok(uci) => Some(ReadMove { uci, text: Ghost(text@) }),
        Err(_) => None,
    }
}

/// `UciMove::to_move` in the position.
#[verifier::external_body]
pub(crate) fn legal_move(position: &ParsedPosition, read: ReadMove) -> (res: Option<LegalMove>)
    ensures
        res is Some <==> uci_legal(position.fen(), read.text()),
        res matches Some(m) ==> m.fen() == position.fen() && m.text() == read.text(),
{
    match read.uci.to_move(&position.chess) {
        Ok(m) => Some(LegalMove { m, fen: Ghost(position.fen@), text: Ghost(read.text@) }),
        Err(_) => None,
    }
}

/// `Chess::play`, then the FEN of the result (`Fen::from_position` with
/// `EnPassantMode::Legal`, written by `Display`).
#[verifier::external_body]
pub(crate) fn play(position: ParsedPosition, m: LegalMove) -> (res: Option<String>)
    requires
        m.fen() == position.fen(),
    ensures
        match res {
            Some(fen) => played(position.fen(), m.text()) == Some(fen@),
            None => played(position.fen(), m.text()) is None,
        },
{
    match position.chess.play(m.m) {
        Ok(next) => Some(shakmaty::fen::Fen::from_position(&next, shakmaty::EnPassantMode::Legal).to_string()),
        Err(_) => None,
    }
}

/// `Chess::turn`, one library colour per `shakmaty` colour.
#[verifier::external_body]
pub(crate) fn side_to_move(position: &ParsedPosition) -> (res: Color)
    ensures
        res == turn_of(position.fen()),
{
    match position.chess.turn() {
        shakmaty::Color::White => Color::White,
        shakmaty::Color::Black => Color::Black,
    }
}

/// `Chess::is_check`.
#[verifier::external_body]
pub(crate) fn is_check(position: &ParsedPosition) -> (res: bool)
    ensures
        res == check_of(position.fen()),
{
    position.chess.is_check()
}

/// `Chess::is_checkmate`.
#[verifier::external_body]
pub(crate) fn is_checkmate(position: &ParsedPosition) -> (res: bool)
    ensures
        res == checkmate_of(position.fen()),
{
    position.chess.is_checkmate()
}

/// `Chess::is_stalemate`.
#[verifier::external_body]
pub(crate) fn is_stalemate(position: &ParsedPosition) -> (res: bool)
    ensures
        res == stalemate_of(position.fen()),
{
    position.chess.is_stalemate()
}

/// `Chess::is_game_over`.
#[verifier::external_body]
pub(crate) fn is_game_over(position: &ParsedPosition) -> (res: bool)
    ensures
        res == game_over_of(position.fen()),
{
    position.chess.is_game_over()
}

/// `Board::piece_at` on `Square::new(square)`, one library value per `shakmaty`
/// colour and role.
#[verifier::external_body]
pub(crate) fn piece_on(position: &ParsedPosition, square: u32) -> (res: Option<PieceOnSquare>)
    requires
        square < 64,
    ensures
        res == occupant(position.fen(), square),
{
    position.chess.board().piece_at(shakmaty::Square::new(square)).map(|found| PieceOnSquare {
        color: match found.color {
            shakmaty::Color::White => Color::White,
            shakmaty::Color::Black => Color::Black,
        },
        piece: match found.role {
            shakmaty::Role::Pawn => Piece::Pawn,
            shakmaty::Role::Knight => Piece::Knight,
            shakmaty::Role::Bishop => Piece::Bishop,
            shakmaty::Role::Rook => Piece::Rook,
            shakmaty::Role::Queen => Piece::Queen,
            shakmaty::Role::King => Piece::King,
        },
    })
}

/// `(board.by_color(color) & board.by_role(role)).count()`: a population count of a
/// 64-square bitboard, so at most 64 (and the name's `u8` result type holds it).
#[verifier::external_body]
pub(crate) fn count_pieces(position: &ParsedPosition, color: Color, piece: Piece) -> (res: u32)
    ensures
        res == piece_count(position.fen(), color, piece),
        res <= 64,
{
    let board = position.chess.board();
    let color = match color {
        Color::White => shakmaty::Color::White,
        Color::Black => shakmaty::Color::Black,
    };
    let role = match piece {
        Piece::Pawn => shakmaty::Role::Pawn,
        Piece::Knight => shakmaty::Role::Knight,
        Piece::Bishop => shakmaty::Role::Bishop,
        Piece::Rook => shakmaty::Role::Rook,
        Piece::Queen => shakmaty::Role::Queen,
        Piece::King => shakmaty::Role::King,
    };
    (board.by_color(color) & board.by_role(role)).count() as u32
}

} // verus!
