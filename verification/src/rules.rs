//! The rules facade: the `ChessRulesEngine` contract and its `shakmaty` implementation.
use vstd::prelude::*;

use crate::board::{
    fen_spec, from_uci_spec, uci_shaped, is_square_name, result_view, square_number, uci_text, ChessError,
    ChessFault, ChessMove, Color, MoveView, Piece, PieceOnSquare, Position, PositionStatus, Square,
};
use crate::shak::{
    check_of, checkmate_of, count_pieces, game_over_of, is_check, is_checkmate, is_game_over,
    is_stalemate, legal_move, legal_move_texts, legal_uci_texts, occupant, parse_position,
    piece_count, piece_on, play, played, read_uci, side_to_move, square_index, stalemate_of,
    standard_material, turn_of, uci_legal, uci_readable,
};

verus! {

/// The view of a list of moves, or of the error that stopped it.
pub open spec fn moves_view(r: Result<Vec<ChessMove>, ChessError>) -> Result<Seq<MoveView>, ChessFault> {
    match r {
        Ok(v) => Ok(v.deep_view()),
        Err(e) => Err(e@),
    }
}

/// Chess rules as the rest of the library consumes them. Every answer is a function
/// of the FEN (and the other arguments), described by the spec functions.
pub trait ChessRulesEngine: Send + Sync {
    /// Whether a FEN is accepted.
    spec fn validity(&self, fen: Seq<char>) -> Result<(), ChessFault>;

    /// The legal moves of a position.
    spec fn legal_moves_of(&self, fen: Seq<char>) -> Result<Seq<MoveView>, ChessFault>;

    /// The position after a move.
    spec fn after_move(&self, fen: Seq<char>, m: MoveView) -> Result<Seq<char>, ChessFault>;

    /// Side to move and end-of-game flags.
    spec fn status_of(&self, fen: Seq<char>) -> Result<PositionStatus, ChessFault>;

    /// The piece on a named square.
    spec fn piece_at_of(&self, fen: Seq<char>, square: Seq<char>) -> Result<Option<PieceOnSquare>, ChessFault>;

    /// Material of one side minus that of the other.
    spec fn material_of(&self, fen: Seq<char>, perspective: Color) -> Result<int, ChessFault>;

    fn validate_position(&self, position: &Position) -> (res: Result<(), ChessError>)
        ensures
            result_view(res) == self.validity(position.fen@),
    ;

    fn legal_moves(&self, position: &Position) -> (res: Result<Vec<ChessMove>, ChessError>)
        ensures
            moves_view(res) == self.legal_moves_of(position.fen@),
    ;

    fn apply_move(&self, position: &Position, chess_move: &ChessMove) -> (res: Result<Position, ChessError>)
        ensures
            result_view(res) == self.after_move(position.fen@, chess_move@),
    ;

    fn status(&self, position: &Position) -> (res: Result<PositionStatus, ChessError>)
        ensures
            result_view(res) == self.status_of(position.fen@),
    ;

    fn piece_at(&self, position: &Position, square: &Square) -> (res: Result<Option<PieceOnSquare>, ChessError>)
        ensures
            result_view(res) == self.piece_at_of(position.fen@, square@),
    ;

    fn material_balance(&self, position: &Position, perspective: Color) -> (res: Result<i32, ChessError>)
        ensures
            match res {
                Ok(v) => self.material_of(position.fen@, perspective) == Ok::<int, ChessFault>(v as int),
                Err(e) => self.material_of(position.fen@, perspective) == Err::<int, ChessFault>(e@),
            },
            res matches Ok(v) ==> -material_limit() <= v <= material_limit(),
    ;
}

/// Reads a list of UCI texts into moves, stopping at the first that fails.
pub open spec fn read_uci_list(texts: Seq<Seq<char>>) -> Result<Seq<MoveView>, ChessFault>
    decreases texts.len(),
{
    if texts.len() == 0 {
        Ok(Seq::empty())
    } else {
        match read_uci_list(texts.drop_last()) {
            Err(e) => Err(e),
            Ok(moves) => match from_uci_spec(texts.last()) {
                Err(e) => Err(e),
                Ok(m) => Ok(moves.push(m)),
            },
        }
    }
}

/// Material of one side: pawns 100, knights 320, bishops 330, rooks 500, queens 900.
pub open spec fn side_material(fen: Seq<char>, color: Color) -> int {
    (100 * piece_count(fen, color, Piece::Pawn) + 320 * piece_count(fen, color, Piece::Knight) + 330
        * piece_count(fen, color, Piece::Bishop) + 500 * piece_count(fen, color, Piece::Rook) + 900
        * piece_count(fen, color, Piece::Queen)) as int
}

/// The largest material difference a position with standard material can show with
/// the weights above: one side's full set with eight queens more, against a bare king.
pub open spec fn material_limit() -> int {
    10_400
}

/// A side with standard material has at most the limit in material.
proof fn lemma_side_material_bounded(fen: Seq<char>, c: Color)
    requires
        standard_material(fen, c),
    ensures
        0 <= side_material(fen, c) <= material_limit(),
{
}

/// The rules of standard chess, as `shakmaty` implements them.
#[derive(Debug, Default)]
pub struct ShakmatyRules;

impl ChessRulesEngine for ShakmatyRules {
    open spec fn validity(&self, fen: Seq<char>) -> Result<(), ChessFault> {
        fen_spec(fen)
    }

    open spec fn legal_moves_of(&self, fen: Seq<char>) -> Result<Seq<MoveView>, ChessFault> {
        match fen_spec(fen) {
            Err(e) => Err(e),
            Ok(_) => read_uci_list(legal_uci_texts(fen)),
        }
    }

    open spec fn after_move(&self, fen: Seq<char>, m: MoveView) -> Result<Seq<char>, ChessFault> {
        match fen_spec(fen) {
            Err(e) => Err(e),
            Ok(_) => if !uci_readable(uci_text(m)) {
                Err(ChessFault::InvalidMove(uci_text(m)))
            } else if !uci_legal(fen, uci_text(m)) {
                Err(ChessFault::IllegalMove(uci_text(m)))
            } else {
                match played(fen, uci_text(m)) {
                    Some(next) => Ok(next),
                    None => Err(ChessFault::IllegalMove(uci_text(m))),
                }
            },
        }
    }

    open spec fn status_of(&self, fen: Seq<char>) -> Result<PositionStatus, ChessFault> {
        match fen_spec(fen) {
            Err(e) => Err(e),
            Ok(_) => Ok(
                PositionStatus {
                    side_to_move: turn_of(fen),
                    in_check: check_of(fen),
                    checkmate: checkmate_of(fen),
                    stalemate: stalemate_of(fen),
                    game_over: game_over_of(fen),
                },
            ),
        }
    }

    open spec fn piece_at_of(&self, fen: Seq<char>, square: Seq<char>) -> Result<Option<PieceOnSquare>, ChessFault> {
        match fen_spec(fen) {
            Err(e) => Err(e),
            Ok(_) => if is_square_name(square) {
                Ok(occupant(fen, square_number(square)))
            } else {
                Err(ChessFault::InvalidSquare(square))
            },
        }
    }

    open spec fn material_of(&self, fen: Seq<char>, perspective: Color) -> Result<int, ChessFault> {
        match fen_spec(fen) {
            Err(e) => Err(e),
            Ok(_) => Ok(side_material(fen, perspective) - side_material(fen, perspective.spec_opposite())),
        }
    }

    fn validate_position(&self, position: &Position) -> (res: Result<(), ChessError>) {
        match parse_position(position.fen.as_str()) {
            Ok(_) => Ok(()),
            Err(error) => Err(error),
        }
    }

    /// Every listed move reads back from its text and plays: the rules never refuse a
    /// move they listed.
    fn legal_moves(&self, position: &Position) -> (res: Result<Vec<ChessMove>, ChessError>)
        ensures
            fen_spec(position.fen@) is Ok ==> res is Ok,
            res matches Ok(ms) ==> forall|i: int|
                0 <= i < ms@.len() ==> (#[trigger] self.after_move(position.fen@, ms@[i]@)) is Ok,
    {
        let chess = match parse_position(position.fen.as_str()) {
            Ok(chess) => chess,
            Err(error) => return Err(error),
        };
        let texts = legal_move_texts(&chess);
        let ghost views = texts@.map_values(|s: String| s@);
        let mut moves: Vec<ChessMove> = Vec::new();
        let mut i: usize = 0;
        proof {
            assert(views.take(0) =~= Seq::<Seq<char>>::empty());
            assert(moves.deep_view() =~= Seq::<MoveView>::empty());
        }
        while i < texts.len()
            invariant
                i <= texts.len(),
                chess.fen() == position.fen@,
                fen_spec(position.fen@) is Ok,
                views == texts@.map_values(|s: String| s@),
                views == legal_uci_texts(chess.fen()),
                forall|j: int|
                    0 <= j < texts@.len() ==> {
                        &&& uci_shaped(#[trigger] texts@[j]@)
                        &&& uci_legal(chess.fen(), texts@[j]@)
                        &&& played(chess.fen(), texts@[j]@) is Some
                    },
                moves@.len() == i,
                forall|j: int| 0 <= j < i ==> (#[trigger] self.after_move(position.fen@, moves@[j]@)) is Ok,
                read_uci_list(views.take(i as int)) == Ok::<Seq<MoveView>, ChessFault>(moves.deep_view()),
            decreases texts.len() - i,
        {
            proof {
                assert(views.take(i + 1).drop_last() =~= views.take(i as int));
                assert(views.take(i + 1).last() == texts@[i as int]@);
                crate::board::lemma_shaped_uci_reads_back(texts@[i as int]@);
            }
            match ChessMove::from_uci(texts[i].as_str()) {
                Ok(chess_move) => {
                    let ghost before = moves.deep_view();
                    moves.push(chess_move);
                    proof {
                        assert(moves.deep_view() =~= before.push(chess_move@));
                        assert(uci_text(chess_move@) == texts@[i as int]@);
                        assert(self.after_move(position.fen@, moves@[i as int]@) is Ok);
                    }
                },
                Err(error) => return Err(error),
            }
            i = i + 1;
        }
        proof {
            assert(views.take(i as int) =~= views);
        }
        Ok(moves)
    }

    fn apply_move(&self, position: &Position, chess_move: &ChessMove) -> (res: Result<Position, ChessError>) {
        let chess = match parse_position(position.fen.as_str()) {
            Ok(chess) => chess,
            Err(error) => return Err(error),
        };
        let uci = chess_move.to_uci();
        let read = match read_uci(uci.as_str()) {
            Some(read) => read,
            None => return Err(ChessError::InvalidMove(uci)),
        };
        let legal = match legal_move(&chess, read) {
            Some(legal) => legal,
            None => return Err(ChessError::IllegalMove(uci)),
        };
        match play(chess, legal) {
            Some(fen) => Ok(Position { fen }),
            None => Err(ChessError::IllegalMove(uci)),
        }
    }

    fn status(&self, position: &Position) -> (res: Result<PositionStatus, ChessError>) {
        let chess = match parse_position(position.fen.as_str()) {
            Ok(chess) => chess,
            Err(error) => return Err(error),
        };
        Ok(
            PositionStatus {
                side_to_move: side_to_move(&chess),
                in_check: is_check(&chess),
                checkmate: is_checkmate(&chess),
                stalemate: is_stalemate(&chess),
                game_over: is_game_over(&chess),
            },
        )
    }

    fn piece_at(&self, position: &Position, square: &Square) -> (res: Result<Option<PieceOnSquare>, ChessError>) {
        let chess = match parse_position(position.fen.as_str()) {
            Ok(chess) => chess,
            Err(error) => return Err(error),
        };
        match square_index(square.as_str()) {
            Some(index) => {
                proof {
                    crate::board::lemma_square_number_bound(square@);
                }
                Ok(piece_on(&chess, index))
            },
            None => Err(ChessError::InvalidSquare(square.as_str().to_owned())),
        }
    }

    fn material_balance(&self, position: &Position, perspective: Color) -> (res: Result<i32, ChessError>) {
        let chess = match parse_position(position.fen.as_str()) {
            Ok(chess) => chess,
            Err(error) => return Err(error),
        };
        let own = score(&chess, perspective);
        let opponent = score(&chess, perspective.opposite());
        Ok(own - opponent)
    }
}

/// Weighted material of one side.
fn score(chess: &crate::shak::ParsedPosition, color: Color) -> (res: i32)
    requires
        standard_material(chess.fen(), color),
    ensures
        res == side_material(chess.fen(), color),
        0 <= res <= material_limit(),
{
    proof {
        lemma_side_material_bounded(chess.fen(), color);
    }
    let pawns = count_pieces(chess, color, Piece::Pawn) as i32;
    let knights = count_pieces(chess, color, Piece::Knight) as i32;
    let bishops = count_pieces(chess, color, Piece::Bishop) as i32;
    let rooks = count_pieces(chess, color, Piece::Rook) as i32;
    let queens = count_pieces(chess, color, Piece::Queen) as i32;
    pawns * 100 + knights * 320 + bishops * 330 + rooks * 500 + queens * 900
}

/// The standard rules' material balance is one side's material minus the other's, so
/// it changes sign with the side it is seen from.
pub proof fn law_material_changes_sign_with_the_side(fen: Seq<char>, c: Color)
    ensures
        ShakmatyRules.material_of(fen, c) matches Ok(v) ==> ShakmatyRules.material_of(fen, c.spec_opposite())
            == Ok::<int, ChessFault>(-v),
        ShakmatyRules.material_of(fen, c) is Err <==> ShakmatyRules.material_of(fen, c.spec_opposite()) is Err,
{
}

} // verus!
