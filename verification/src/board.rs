//! Domain values of the rules layer: colours, pieces, squares, moves and positions.
use vstd::prelude::*;

use crate::shak::{fen_rejection, parse_position, square_index};
use crate::text::{
    ascii_lower_char, ascii_lowercase, byte_split, chars_of, first_prefix_reaching, lemma_byte_split_at,
    lemma_ascii_slices_cleanly, lemma_utf8_len_at_least_chars, lemma_utf8_len_prefix_grows, prefix_bytes,
    fields, join_first_with_space, join_space, lower_char, lower_text, parse_u16, parse_u16_spec,
    split_fields, utf8_len, utf8_len_capped,
};

verus! {

/// Forsyth-Edwards notation of the standard starting position.
pub const INITIAL_FEN: &'static str = "rnbqkbnr/pppppppp/8/8/8/8/PPPPPPPP/RNBQKBNR w KQkq - 0 1";

/// A side of the board.
#[derive(Debug, Clone, Copy, PartialEq, Eq, Structural)]
pub enum Color {
    White,
    Black,
}

impl Color {
    /// The other side.
    pub open spec fn spec_opposite(self) -> Color {
        match self {
            Color::White => Color::Black,
            Color::Black => Color::White,
        }
    }

    /// Returns the other side.
    #[verifier::when_used_as_spec(spec_opposite)]
    pub fn opposite(self) -> (res: Color)
        ensures
            res == self.spec_opposite(),
    {
        match self {
            Color::White => Color::Black,
            Color::Black => Color::White,
        }
    }
}

/// A kind of chess piece.
#[derive(Debug, Clone, Copy, PartialEq, Eq, Structural)]
pub enum Piece {
    Pawn,
    Knight,
    Bishop,
    Rook,
    Queen,
    King,
}

/// The piece a UCI promotion letter names, in either case.
pub open spec fn promotion_of(c: char) -> Option<Piece> {
    let l = lower_char(c);
    if l == 'q' {
        Some(Piece::Queen)
    } else if l == 'r' {
        Some(Piece::Rook)
    } else if l == 'b' {
        Some(Piece::Bishop)
    } else if l == 'n' {
        Some(Piece::Knight)
    } else {
        None
    }
}

/// The UCI letter of a piece that a pawn can promote to.
pub open spec fn promotion_letter(p: Piece) -> Option<char> {
    match p {
        Piece::Queen => Some('q'),
        Piece::Rook => Some('r'),
        Piece::Bishop => Some('b'),
        Piece::Knight => Some('n'),
        Piece::Pawn | Piece::King => None,
    }
}

impl Piece {
    fn from_promotion(character: char) -> (res: Option<Piece>)
        ensures
            res == promotion_of(character),
    {
        let l = ascii_lower_char(character);
        if l == 'q' {
            Some(Piece::Queen)
        } else if l == 'r' {
            Some(Piece::Rook)
        } else if l == 'b' {
            Some(Piece::Bishop)
        } else if l == 'n' {
            Some(Piece::Knight)
        } else {
            None
        }
    }

    fn promotion_char(self) -> (res: Option<char>)
        ensures
            res == promotion_letter(self),
    {
        match self {
            Piece::Queen => Some('q'),
            Piece::Rook => Some('r'),
            Piece::Bishop => Some('b'),
            Piece::Knight => Some('n'),
            Piece::Pawn | Piece::King => None,
        }
    }
}

/// What went wrong in the rules layer, as text-free data for contracts.
pub ghost enum ChessFault {
    InvalidFen(Seq<char>),
    InvalidSquare(Seq<char>),
    InvalidMove(Seq<char>),
    IllegalMove(Seq<char>),
    InvalidPromotion,
}

/// Errors of the rules layer.
#[derive(Debug)]
pub enum ChessError {
    InvalidFen(String),
    InvalidSquare(String),
    InvalidMove(String),
    IllegalMove(String),
    InvalidPromotion,
}

impl View for ChessError {
    type V = ChessFault;

    open spec fn view(&self) -> ChessFault {
        match self {
            ChessError::InvalidFen(s) => ChessFault::InvalidFen(s@),
            ChessError::InvalidSquare(s) => ChessFault::InvalidSquare(s@),
            ChessError::InvalidMove(s) => ChessFault::InvalidMove(s@),
            ChessError::IllegalMove(s) => ChessFault::IllegalMove(s@),
            ChessError::InvalidPromotion => ChessFault::InvalidPromotion,
        }
    }
}

/// The text of an error (what `Display` would print).
pub open spec fn fault_text(f: ChessFault) -> Seq<char> {
    match f {
        ChessFault::InvalidFen(s) => "invalid FEN: "@ + s,
        ChessFault::InvalidSquare(s) => "invalid square: "@ + s,
        ChessFault::InvalidMove(s) => "invalid move: "@ + s,
        ChessFault::IllegalMove(s) => "illegal move: "@ + s,
        ChessFault::InvalidPromotion => "invalid promotion piece"@,
    }
}

impl ChessError {
    /// The error's message.
    pub fn message(&self) -> (res: String)
        ensures
            res@ == fault_text(self@),
    {
        match self {
            ChessError::InvalidFen(s) => String::from_str("invalid FEN: ").concat(s.as_str()),
            ChessError::InvalidSquare(s) => String::from_str("invalid square: ").concat(s.as_str()),
            ChessError::InvalidMove(s) => String::from_str("invalid move: ").concat(s.as_str()),
            ChessError::IllegalMove(s) => String::from_str("illegal move: ").concat(s.as_str()),
            ChessError::InvalidPromotion => String::from_str("invalid promotion piece"),
        }
    }
}

/// The view of a result whose both sides have views.
pub open spec fn result_view<T: View, E: View>(r: Result<T, E>) -> Result<T::V, E::V> {
    match r {
        Ok(t) => Ok(t@),
        Err(e) => Err(e@),
    }
}

/// A square name: a file letter `a`..`h` followed by a rank digit `1`..`8`.
pub open spec fn is_square_name(s: Seq<char>) -> bool {
    &&& s.len() == 2
    &&& 'a' <= s[0] && s[0] <= 'h'
    &&& '1' <= s[1] && s[1] <= '8'
}

/// The number of a named square, counted from a1 along ranks.
pub open spec fn square_number(s: Seq<char>) -> u32 {
    ((s[0] as u32 - 'a' as u32) + 8 * (s[1] as u32 - '1' as u32)) as u32
}

/// A square name numbers a square of the board.
pub proof fn lemma_square_number_bound(s: Seq<char>)
    requires
        is_square_name(s),
    ensures
        square_number(s) < 64,
{
}

/// What `Square::new` gives for a text.
pub open spec fn square_spec(value: Seq<char>) -> Result<Seq<char>, ChessFault> {
    let l = lower_text(value);
    if is_square_name(l) {
        Ok(l)
    } else {
        Err(ChessFault::InvalidSquare(l))
    }
}

/// A board square, stored by its lowercase name.
#[derive(Debug, Clone, PartialEq, Eq, Hash)]
pub struct Square(String);

impl View for Square {
    type V = Seq<char>;

    closed spec fn view(&self) -> Seq<char> {
        self.0@
    }
}

impl Square {
    /// Builds a square from its name in any letter case.
    pub fn new(value: &str) -> (res: Result<Square, ChessError>)
        ensures
            result_view(res) == square_spec(value@),
    {
        let lowered = ascii_lowercase(value);
        match square_index(lowered.as_str()) {
            Some(_) => Ok(Square(lowered)),
            None => Err(ChessError::InvalidSquare(lowered)),
        }
    }

    /// The square's name.
    pub fn as_str(&self) -> (res: &str)
        ensures
            res@ == self@,
    {
        self.0.as_str()
    }

    /// A copy of the square.
    pub fn copied(&self) -> (res: Square)
        ensures
            res == *self,
    {
        Square(self.0.clone())
    }
}

/// A move, as the square it leaves, the square it reaches and an optional promotion.
pub ghost struct MoveView {
    pub from: Seq<char>,
    pub to: Seq<char>,
    pub promotion: Option<Piece>,
}

/// A move between two squares, with the piece a pawn promotes to.
#[derive(Debug, Clone, PartialEq, Eq)]
pub struct ChessMove {
    pub from: Square,
    pub to: Square,
    pub promotion: Option<Piece>,
}

impl View for ChessMove {
    type V = MoveView;

    open spec fn view(&self) -> MoveView {
        MoveView { from: self.from@, to: self.to@, promotion: self.promotion }
    }
}

/// What `ChessMove::new` gives.
pub open spec fn new_move_spec(from: Seq<char>, to: Seq<char>, promotion: Option<Piece>) -> Result<
    MoveView,
    ChessFault,
> {
    if promotion == Some(Piece::Pawn) || promotion == Some(Piece::King) {
        Err(ChessFault::InvalidPromotion)
    } else {
        match square_spec(from) {
            Err(e) => Err(e),
            Ok(f) => match square_spec(to) {
                Err(e) => Err(e),
                Ok(t) => Ok(MoveView { from: f, to: t, promotion }),
            },
        }
    }
}

/// The UCI text of a move: both squares, then the promotion letter if any.
pub open spec fn uci_text(m: MoveView) -> Seq<char> {
    let tail = match m.promotion {
        Some(p) => match promotion_letter(p) {
            Some(c) => seq![c],
            None => Seq::empty(),
        },
        None => Seq::empty(),
    };
    m.from + m.to + tail
}

/// The promotion piece named by the fifth character of a UCI text, if any.
pub open spec fn uci_promotion(u: Seq<char>) -> Option<Piece> {
    if u.len() > 4 {
        promotion_of(u[4])
    } else {
        None
    }
}

/// What `ChessMove::from_uci` gives: four or five bytes, squares in bytes 0..2
/// and 2..4, and a promotion letter as fifth byte when there are five; a text whose
/// bytes 2 or 4 fall inside a character is no move.
pub open spec fn from_uci_spec(u: Seq<char>) -> Result<MoveView, ChessFault> {
    let n = utf8_len(u);
    if !(n == 4 || n == 5) {
        Err(ChessFault::InvalidMove(u))
    } else if n == 5 && uci_promotion(u) is None {
        Err(ChessFault::InvalidPromotion)
    } else if byte_split(u, 2) is None || byte_split(u, 4) is None {
        Err(ChessFault::InvalidMove(u))
    } else {
        let k2 = byte_split(u, 2)->0;
        let k4 = byte_split(u, 4)->0;
        new_move_spec(u.take(k2), u.subrange(k2, k4), uci_promotion(u))
    }
}

impl ChessMove {
    /// Builds a move from two square names; pawns and kings are no promotion pieces.
    pub fn new(from: &str, to: &str, promotion: Option<Piece>) -> (res: Result<ChessMove, ChessError>)
        ensures
            result_view(res) == new_move_spec(from@, to@, promotion),
    {
        if promotion == Some(Piece::Pawn) || promotion == Some(Piece::King) {
            return Err(ChessError::InvalidPromotion);
        }
        let from = match Square::new(from) {
            Ok(square) => square,
            Err(error) => return Err(error),
        };
        let to = match Square::new(to) {
            Ok(square) => square,
            Err(error) => return Err(error),
        };
        Ok(ChessMove { from, to, promotion })
    }

    /// The move in UCI notation, such as `e2e4` or `a7a8q`.
    pub fn to_uci(&self) -> (res: String)
        ensures
            res@ == uci_text(self@),
    {
        let mut uci = String::new();
        uci.append(self.from.as_str());
        uci.append(self.to.as_str());
        let promotion_char = match self.promotion {
            Some(piece) => piece.promotion_char(),
            None => None,
        };
        if let Some(character) = promotion_char {
            crate::text::push_char(&mut uci, character);
        }
        uci
    }

    /// Reads a move in UCI notation.
    pub fn from_uci(uci: &str) -> (res: Result<ChessMove, ChessError>)
        ensures
            result_view(res) == from_uci_spec(uci@),
    {
        let cs = chars_of(uci);
        let n = utf8_len_capped(&cs, 6);
        if !(n == 4 || n == 5) {
            return Err(ChessError::InvalidMove(uci.to_owned()));
        }
        let promotion = if cs.len() > 4 {
            Piece::from_promotion(cs[4])
        } else {
            None
        };
        if n == 5 && promotion.is_none() {
            return Err(ChessError::InvalidPromotion);
        }
        proof {
            lemma_utf8_len_at_least_chars(uci@);
        }
        let k2 = first_prefix_reaching(&cs, 2);
        let k4 = first_prefix_reaching(&cs, 4);
        let b2 = prefix_bytes(&cs, k2);
        let b4 = prefix_bytes(&cs, k4);
        if b2 != 2 || b4 != 4 {
            proof {
                if b2 != 2 && byte_split(uci@, 2) is Some {
                    let j = byte_split(uci@, 2)->0;
                    assert(0 <= j <= uci@.len() && utf8_len(uci@.take(j)) == 2);
                    if k2 < j {
                        lemma_utf8_len_prefix_grows(cs@, k2 as int, j);
                    }
                }
                if b4 != 4 && byte_split(uci@, 4) is Some {
                    let j = byte_split(uci@, 4)->0;
                    assert(0 <= j <= uci@.len() && utf8_len(uci@.take(j)) == 4);
                    if k4 < j {
                        lemma_utf8_len_prefix_grows(cs@, k4 as int, j);
                    }
                }
            }
            return Err(ChessError::InvalidMove(uci.to_owned()));
        }
        proof {
            lemma_byte_split_at(uci@, k2 as int);
            lemma_byte_split_at(uci@, k4 as int);
            if k2 > k4 {
                lemma_utf8_len_prefix_grows(cs@, k4 as int, k2 as int);
            }
        }
        let from_text = uci.substring_char(0, k2);
        let to_text = uci.substring_char(k2, k4);
        ChessMove::new(from_text, to_text, promotion)
    }

    /// A copy of the move.
    pub fn copied(&self) -> (res: ChessMove)
        ensures
            res == *self,
    {
        ChessMove { from: self.from.copied(), to: self.to.copied(), promotion: self.promotion }
    }
}

impl DeepView for ChessMove {
    type V = MoveView;

    open spec fn deep_view(&self) -> MoveView {
        self@
    }
}

/// Reading a move back from its UCI text gives the move: for two square names and no
/// promotion, or a promotion to a piece a pawn can become.
pub proof fn law_uci_round_trip(m: MoveView)
    requires
        is_square_name(m.from),
        is_square_name(m.to),
        m.promotion != Some(Piece::Pawn),
        m.promotion != Some(Piece::King),
    ensures
        from_uci_spec(uci_text(m)) == Ok::<MoveView, ChessFault>(m),
{
    let u = uci_text(m);
    assert(u.take(2) =~= m.from);
    assert(u.subrange(2, 4) =~= m.to);
    assert(vstd::utf8::is_ascii_chars(u));
    lemma_ascii_slices_cleanly(u);
    assert(vstd::utf8::is_ascii_chars(u.take(4)));
    lemma_ascii_slices_cleanly(u.take(4));
    assert(u.take(4).len() == 4);
    lemma_byte_split_at(u, 4);
    assert(lower_text(m.from) =~= m.from);
    assert(lower_text(m.to) =~= m.to);
    assert(square_spec(m.from) == Ok::<Seq<char>, ChessFault>(m.from));
    assert(square_spec(m.to) == Ok::<Seq<char>, ChessFault>(m.to));
    assert(uci_promotion(u) == m.promotion);
}

/// A UCI text as `shakmaty` writes a normal move: two square names and, for a
/// promotion, the lowercase letter of a queen, rook, bishop or knight.
pub open spec fn uci_shaped(t: Seq<char>) -> bool {
    &&& t.len() == 4 || t.len() == 5
    &&& is_square_name(t.take(2))
    &&& is_square_name(t.subrange(2, 4))
    &&& t.len() == 5 ==> (t[4] == 'q' || t[4] == 'r' || t[4] == 'b' || t[4] == 'n')
}

/// The move a UCI text of that shape names.
pub open spec fn shaped_move(t: Seq<char>) -> MoveView {
    MoveView { from: t.take(2), to: t.subrange(2, 4), promotion: uci_promotion(t) }
}

/// A text of that shape reads as its move, whose UCI text is the text again.
pub proof fn lemma_shaped_uci_reads_back(t: Seq<char>)
    requires
        uci_shaped(t),
    ensures
        from_uci_spec(t) == Ok::<MoveView, ChessFault>(shaped_move(t)),
        uci_text(shaped_move(t)) == t,
{
    let m = shaped_move(t);
    if t.len() == 5 {
        assert(uci_text(m) =~= t);
    } else {
        assert(uci_text(m) =~= t);
    }
    law_uci_round_trip(m);
}

/// What reading a FEN gives: nothing, or why it was refused.
pub open spec fn fen_spec(fen: Seq<char>) -> Result<(), ChessFault> {
    match fen_rejection(fen) {
        None => Ok(()),
        Some(message) => Err(ChessFault::InvalidFen(message)),
    }
}

/// The first four FEN fields (placement, side, castling, en passant), joined by
/// spaces, when the FEN has at least four fields.
pub open spec fn repetition_key_spec(fen: Seq<char>) -> Option<Seq<char>> {
    if fields(fen).len() >= 4 {
        Some(join_space(fields(fen).take(4)))
    } else {
        None
    }
}

/// The half-move clock: the fifth FEN field read as a `u16`.
pub open spec fn halfmove_clock_spec(fen: Seq<char>) -> Option<u16> {
    if fields(fen).len() > 4 {
        parse_u16_spec(fields(fen)[4])
    } else {
        None
    }
}

/// The key under which two FENs count as the same position for repetition.
pub fn repetition_key(fen: &str) -> (res: Option<String>)
    ensures
        res matches Some(k) ==> repetition_key_spec(fen@) == Some(k@),
        res is None <==> repetition_key_spec(fen@) is None,
{
    let parts = split_fields(fen);
    if parts.len() >= 4 {
        Some(join_first_with_space(&parts, 4))
    } else {
        None
    }
}

/// A position, held as its FEN.
#[derive(Debug, Clone, PartialEq, Eq)]
pub struct Position {
    pub fen: String,
}

impl View for Position {
    type V = Seq<char>;

    open spec fn view(&self) -> Seq<char> {
        self.fen@
    }
}

impl Position {
    /// Accepts a FEN that the rules library can set up as a standard position.
    pub fn from_fen(fen: &str) -> (res: Result<Position, ChessError>)
        ensures
            result_view(res) == (match fen_spec(fen@) {
                Ok(_) => Ok(fen@),
                Err(e) => Err::<Seq<char>, ChessFault>(e),
            }),
    {
        match parse_position(fen) {
            Ok(_) => Ok(Position { fen: fen.to_owned() }),
            Err(error) => Err(error),
        }
    }

    /// The standard starting position.
    pub fn initial() -> (res: Position)
        ensures
            res.fen@ == INITIAL_FEN@,
    {
        Position { fen: INITIAL_FEN.to_owned() }
    }

    /// The half-move clock of the FEN, if it can be read.
    pub fn halfmove_clock(&self) -> (res: Option<u16>)
        ensures
            res == halfmove_clock_spec(self.fen@),
    {
        let parts = split_fields(self.fen.as_str());
        if parts.len() > 4 {
            proof {
                assert(parts@.map_values(|f: String| f@)[4] == parts@[4]@);
            }
            parse_u16(parts[4].as_str())
        } else {
            None
        }
    }

    /// The position's repetition key.
    pub fn repetition_key(&self) -> (res: Option<String>)
        ensures
            res matches Some(k) ==> repetition_key_spec(self.fen@) == Some(k@),
            res is None <==> repetition_key_spec(self.fen@) is None,
    {
        repetition_key(self.fen.as_str())
    }

    /// The fifty-move rule can be claimed: a half-move clock of at least 100.
    pub fn is_fifty_move_draw(&self) -> (res: bool)
        ensures
            res == (halfmove_clock_spec(self.fen@) matches Some(clock) && clock >= 100),
    {
        match self.halfmove_clock() {
            Some(clock) => clock >= 100,
            None => false,
        }
    }

    /// A copy of the position.
    pub fn copied(&self) -> (res: Position)
        ensures
            res == *self,
    {
        Position { fen: self.fen.clone() }
    }
}

/// Side to move, check and end-of-game flags of a position.
#[derive(Debug, Clone, PartialEq, Eq, Structural)]
pub struct PositionStatus {
    pub side_to_move: Color,
    pub in_check: bool,
    pub checkmate: bool,
    pub stalemate: bool,
    pub game_over: bool,
}

impl View for PositionStatus {
    type V = PositionStatus;

    open spec fn view(&self) -> PositionStatus {
        *self
    }
}

/// A piece standing on a square.
#[derive(Debug, Clone, PartialEq, Eq, Structural)]
pub struct PieceOnSquare {
    pub color: Color,
    pub piece: Piece,
}

} // verus!
