//! Building exercises from requests: position templates, defaults and validation.
use std::sync::Arc;

use vstd::prelude::*;

use crate::board::{fault_text, fen_spec, ChessError, Color, Piece, Position, INITIAL_FEN};
use crate::exercise::{
    kind_name, text_view, Exercise, ExerciseConfig, ExerciseRequest, ExerciseRules, ExerciseType, ExerciseView, ObjectiveSpec,
    ObjectiveView, OpponentConfig, PositionSource, SessionMode,
};
use crate::rules::ChessRulesEngine;

verus! {

/// Why an exercise could not be built, with texts as character sequences.
pub ghost enum ExerciseFault {
    MissingField(Seq<char>),
    Unsupported(Seq<char>),
    InvalidPosition(Seq<char>),
}

/// Errors of exercise construction.
#[derive(Debug)]
pub enum ExerciseError {
    MissingField(&'static str),
    Unsupported(String),
    InvalidPosition(String),
}

impl View for ExerciseError {
    type V = ExerciseFault;

    open spec fn view(&self) -> ExerciseFault {
        match self {
            ExerciseError::MissingField(s) => ExerciseFault::MissingField(s@),
            ExerciseError::Unsupported(s) => ExerciseFault::Unsupported(s@),
            ExerciseError::InvalidPosition(s) => ExerciseFault::InvalidPosition(s@),
        }
    }
}

/// The text of an exercise error (what `Display` would print).
pub open spec fn exercise_fault_text(f: ExerciseFault) -> Seq<char> {
    match f {
        ExerciseFault::MissingField(s) => "missing required field: "@ + s,
        ExerciseFault::Unsupported(s) => "unsupported exercise configuration: "@ + s,
        ExerciseFault::InvalidPosition(s) => "generated an invalid position: "@ + s,
    }
}

impl ExerciseError {
    /// The error's message.
    pub fn message(&self) -> (res: String)
        ensures
            res@ == exercise_fault_text(self@),
    {
        match self {
            ExerciseError::MissingField(s) => String::from_str("missing required field: ").concat(s),
            ExerciseError::Unsupported(s) => String::from_str("unsupported exercise configuration: ").concat(
                s.as_str(),
            ),
            ExerciseError::InvalidPosition(s) => String::from_str("generated an invalid position: ").concat(
                s.as_str(),
            ),
        }
    }
}

/// Produces starting positions for exercise types.
pub trait PositionGenerator: Send + Sync {
    fn generate(&self, exercise_type: ExerciseType, piece: Option<Piece>) -> Result<Position, ExerciseError>;
}

/// Turns requests into exercises.
pub trait ExerciseFactory: Send + Sync {
    fn create(&self, request: &ExerciseRequest) -> Result<Exercise, ExerciseError>;
}

/// The exercise factory that ships with the library.
pub struct DefaultExerciseFactory<R: ChessRulesEngine> {
    rules: Arc<R>,
}

/// The template FEN of an exercise type; `None` for types that start from the
/// standard position.
pub open spec fn template_fen(exercise_type: ExerciseType, piece: Option<Piece>) -> Option<Seq<char>> {
    match exercise_type {
        ExerciseType::Checkmate | ExerciseType::Puzzle | ExerciseType::Tactics => Some(
            "7k/8/5KQ1/8/8/8/8/8 w - - 0 1"@,
        ),
        ExerciseType::CheckEscape => Some("4r2k/8/8/8/8/8/8/4K3 w - - 0 1"@),
        ExerciseType::CaptureTraining => Some("4k3/8/8/8/4r3/8/8/4QK2 w - - 0 1"@),
        ExerciseType::PieceMovement => Some(
            match piece {
                Some(Piece::Bishop) => "4k3/8/8/8/8/8/3B4/4K3 w - - 0 1"@,
                Some(Piece::Rook) => "4k3/8/8/8/8/8/8/R3K3 w - - 0 1"@,
                Some(Piece::Queen) => "4k3/8/8/8/8/8/8/3QK3 w - - 0 1"@,
                Some(Piece::King) => "7k/8/8/8/8/8/8/4K3 w - - 0 1"@,
                Some(Piece::Pawn) => "4k3/8/8/8/8/8/4P3/4K3 w - - 0 1"@,
                _ => "4k3/8/8/8/8/8/8/1N2K3 w - - 0 1"@,
            },
        ),
        ExerciseType::Opening | ExerciseType::Endgame | ExerciseType::FullGame | ExerciseType::FreePlay => None,
    }
}

/// A FEN read as an exercise position; refusals become `InvalidPosition`.
pub open spec fn exercise_position(fen: Seq<char>) -> Result<Seq<char>, ExerciseFault> {
    match fen_spec(fen) {
        Ok(_) => Ok(fen),
        Err(e) => Err(ExerciseFault::InvalidPosition(fault_text(e))),
    }
}

/// What `generate` gives.
pub open spec fn generate_spec(exercise_type: ExerciseType, piece: Option<Piece>) -> Result<Seq<char>, ExerciseFault> {
    match template_fen(exercise_type, piece) {
        None => Ok(INITIAL_FEN@),
        Some(fen) => exercise_position(fen),
    }
}

/// What `supplied_position` gives.
pub open spec fn supplied_spec(source: Option<PositionSource>) -> Result<Option<Seq<char>>, ExerciseFault> {
    match source {
        Some(PositionSource { fen: Some(fen), .. }) => match exercise_position(fen@) {
            Ok(f) => Ok(Some(f)),
            Err(e) => Err(e),
        },
        _ => Ok(None),
    }
}

/// The exercise type of a request.
pub open spec fn chosen_type(request: ExerciseRequest) -> ExerciseType {
    match request.exercise {
        Some(config) => config.exercise_type,
        None => match request.mode {
            SessionMode::PieceTraining => ExerciseType::PieceMovement,
            SessionMode::FullGame => ExerciseType::FullGame,
            SessionMode::FreePlay => ExerciseType::FreePlay,
            SessionMode::Exercise => ExerciseType::Puzzle,
        },
    }
}

/// The position source of a request: the exercise's, else the request's.
pub open spec fn chosen_source(request: ExerciseRequest) -> Option<PositionSource> {
    match request.exercise {
        Some(config) => match config.position {
            Some(p) => Some(p),
            None => request.position,
        },
        None => request.position,
    }
}

/// The square a piece-training request aims at when it names none.
pub open spec fn default_target(piece: Option<Piece>) -> Seq<char> {
    match piece {
        Some(Piece::Bishop) => "g5"@,
        Some(Piece::Rook) => "a7"@,
        Some(Piece::Queen) => "h5"@,
        Some(Piece::King) => "f2"@,
        Some(Piece::Pawn) => "e4"@,
        _ => "c3"@,
    }
}

/// The move budget the exercise part of a request sets, if any.
pub open spec fn config_max_moves(request: ExerciseRequest) -> Option<u16> {
    match request.exercise {
        Some(config) => config.max_moves,
        None => None,
    }
}

/// The objective of a request: its own, else its exercise's, else the type's default.
pub open spec fn chosen_objective(request: ExerciseRequest) -> ObjectiveView {
    match request.objective {
        Some(o) => o@,
        None => match request.exercise {
            Some(ExerciseConfig { objective: Some(o), .. }) => o@,
            _ => match chosen_type(request) {
                ExerciseType::Checkmate | ExerciseType::Puzzle | ExerciseType::Tactics => ObjectiveView::Checkmate {
                    max_moves: match config_max_moves(request) {
                        Some(m) => Some(m),
                        None => Some(1),
                    },
                },
                ExerciseType::CheckEscape => ObjectiveView::EscapeCheck,
                ExerciseType::CaptureTraining => ObjectiveView::Capture {
                    piece: None,
                    within_moves: match config_max_moves(request) {
                        Some(m) => Some(m),
                        None => Some(2),
                    },
                },
                ExerciseType::PieceMovement => ObjectiveView::MovePiece {
                    piece: match request.piece {
                        Some(p) => p,
                        None => Piece::Knight,
                    },
                    target: Some(
                        match request.config.target {
                            Some(t) => t@,
                            None => default_target(request.piece),
                        },
                    ),
                },
                _ => ObjectiveView::PlayFullGame,
            },
        },
    }
}

/// The opponent of a request: the exercise's, else the request's, else an engine of
/// level 2 for full games.
pub open spec fn chosen_opponent(request: ExerciseRequest) -> Option<OpponentConfig> {
    match request.exercise {
        Some(ExerciseConfig { opponent: Some(o), .. }) => Some(o),
        _ => match request.opponent {
            Some(o) => Some(o),
            None => if chosen_type(request) == ExerciseType::FullGame {
                Some(OpponentConfig::Engine { difficulty: 2 })
            } else {
                None
            },
        },
    }
}

/// The board rules of a request: the exercise's, else the defaults with the
/// training's legal-move display.
pub open spec fn chosen_rules(request: ExerciseRequest) -> ExerciseRules {
    match request.exercise {
        Some(config) => config.rules,
        None => ExerciseRules {
            allow_undo: false,
            show_legal_moves: request.config.show_legal_moves,
            show_check: true,
            move_limit: 256,
        },
    }
}

/// The difficulty of a request: the exercise's, else the request's.
pub open spec fn chosen_difficulty(request: ExerciseRequest) -> crate::exercise::Difficulty {
    match request.exercise {
        Some(config) => config.difficulty,
        None => request.difficulty,
    }
}

/// The starting position of a request, before the rules engine checks it: a supplied
/// FEN wins over the template, but both are read and either refusal is reported
/// (the supplied one first).
pub open spec fn chosen_position(request: ExerciseRequest) -> Result<Seq<char>, ExerciseFault> {
    match supplied_spec(chosen_source(request)) {
        Err(e) => Err(e),
        Ok(supplied) => match generate_spec(chosen_type(request), request.piece) {
            Err(e) => Err(e),
            Ok(generated) => Ok(
                match supplied {
                    Some(f) => f,
                    None => generated,
                },
            ),
        },
    }
}

/// What `DefaultExerciseFactory::create` gives for a request.
pub open spec fn create_spec<R: ChessRulesEngine>(rules: &R, request: ExerciseRequest) -> Result<ExerciseView, ExerciseFault> {
    match chosen_position(request) {
        Err(e) => Err(e),
        Ok(fen) => match rules.validity(fen) {
            Err(e) => Err(ExerciseFault::InvalidPosition(fault_text(e))),
            Ok(_) => Ok(
                ExerciseView {
                    exercise_type: chosen_type(request),
                    title_key: "exercise_"@ + kind_name(chosen_objective(request)),
                    initial_position: fen,
                    player_color: match request.player_color {
                        Some(c) => c,
                        None => Color::White,
                    },
                    objective: chosen_objective(request),
                    rules: chosen_rules(request),
                    opponent: chosen_opponent(request),
                    difficulty: chosen_difficulty(request),
                },
            ),
        },
    }
}

/// The view of an exercise result.
pub open spec fn exercise_result_view<T: View>(r: Result<T, ExerciseError>) -> Result<T::V, ExerciseFault> {
    match r {
        Ok(t) => Ok(t@),
        Err(e) => Err(e@),
    }
}

fn position_or_invalid(fen: &str) -> (res: Result<Position, ExerciseError>)
    ensures
        exercise_result_view(res) == exercise_position(fen@),
{
    match Position::from_fen(fen) {
        Ok(position) => Ok(position),
        Err(error) => Err(ExerciseError::InvalidPosition(error.message())),
    }
}

impl<R: ChessRulesEngine> DefaultExerciseFactory<R> {
    /// A factory that checks positions with the given rules.
    pub fn new(rules: Arc<R>) -> (res: Self)
        ensures
            res.rules() == *rules,
    {
        DefaultExerciseFactory { rules }
    }

    /// The rules the factory checks positions with.
    pub closed spec fn rules(&self) -> R {
        *self.rules
    }

    fn supplied_position(source: Option<&PositionSource>) -> (res: Result<Option<Position>, ExerciseError>)
        ensures
            supplied_spec(
                match source {
                    Some(s) => Some(*s),
                    None => None,
                },
            ) == (match res {
                Ok(Some(p)) => Ok(Some(p@)),
                Ok(None) => Ok(None),
                Err(e) => Err::<Option<Seq<char>>, ExerciseFault>(e@),
            }),
    {
        match source {
            Some(source) => match &source.fen {
                Some(fen) => match position_or_invalid(fen.as_str()) {
                    Ok(position) => Ok(Some(position)),
                    Err(error) => Err(error),
                },
                None => Ok(None),
            },
            None => Ok(None),
        }
    }

    /// The starting position of an exercise type.
    pub fn generate_position(&self, exercise_type: ExerciseType, piece: Option<Piece>) -> (res: Result<Position, ExerciseError>)
        ensures
            exercise_result_view(res) == generate_spec(exercise_type, piece),
    {
        let fen = match exercise_type {
            ExerciseType::Checkmate | ExerciseType::Puzzle | ExerciseType::Tactics => "7k/8/5KQ1/8/8/8/8/8 w - - 0 1",
            ExerciseType::CheckEscape => "4r2k/8/8/8/8/8/8/4K3 w - - 0 1",
            ExerciseType::CaptureTraining => "4k3/8/8/8/4r3/8/8/4QK2 w - - 0 1",
            ExerciseType::PieceMovement => match piece {
                Some(Piece::Bishop) => "4k3/8/8/8/8/8/3B4/4K3 w - - 0 1",
                Some(Piece::Rook) => "4k3/8/8/8/8/8/8/R3K3 w - - 0 1",
                Some(Piece::Queen) => "4k3/8/8/8/8/8/8/3QK3 w - - 0 1",
                Some(Piece::King) => "7k/8/8/8/8/8/8/4K3 w - - 0 1",
                Some(Piece::Pawn) => "4k3/8/8/8/8/8/4P3/4K3 w - - 0 1",
                _ => "4k3/8/8/8/8/8/8/1N2K3 w - - 0 1",
            },
            ExerciseType::Opening | ExerciseType::Endgame | ExerciseType::FullGame | ExerciseType::FreePlay => {
                return Ok(Position::initial());
            },
        };
        position_or_invalid(fen)
    }

    /// Builds the exercise a request describes.
    pub fn create_exercise(&self, request: &ExerciseRequest) -> (res: Result<Exercise, ExerciseError>)
        ensures
            exercise_result_view(res) == create_spec(&self.rules(), *request),
    {
        let config = request.exercise.as_ref();
        let exercise_type = match config {
            Some(value) => value.exercise_type,
            None => match request.mode {
                SessionMode::PieceTraining => ExerciseType::PieceMovement,
                SessionMode::FullGame => ExerciseType::FullGame,
                SessionMode::FreePlay => ExerciseType::FreePlay,
                SessionMode::Exercise => ExerciseType::Puzzle,
            },
        };
        let difficulty = match config {
            Some(value) => value.difficulty,
            None => request.difficulty,
        };
        let position_source = match config {
            Some(value) => match &value.position {
                Some(p) => Some(p),
                None => request.position.as_ref(),
            },
            None => request.position.as_ref(),
        };
        let supplied = match Self::supplied_position(position_source) {
            Ok(supplied) => supplied,
            Err(error) => return Err(error),
        };
        let generated = match self.generate_position(exercise_type, request.piece) {
            Ok(generated) => generated,
            Err(error) => return Err(error),
        };
        let position = match supplied {
            Some(position) => position,
            None => generated,
        };
        match self.rules.validate_position(&position) {
            Ok(()) => {},
            Err(error) => return Err(ExerciseError::InvalidPosition(error.message())),
        }
        let target = match &request.config.target {
            Some(target) => target.clone(),
            None => String::from_str(
                match request.piece {
                    Some(Piece::Bishop) => "g5",
                    Some(Piece::Rook) => "a7",
                    Some(Piece::Queen) => "h5",
                    Some(Piece::King) => "f2",
                    Some(Piece::Pawn) => "e4",
                    _ => "c3",
                },
            ),
        };
        let from_config = match config {
            Some(value) => match &value.objective {
                Some(o) => Some(o.copied()),
                None => None,
            },
            None => None,
        };
        let objective = match &request.objective {
            Some(o) => o.copied(),
            None => match from_config {
                Some(o) => o,
                None => {
                    let max_moves = match config {
                        Some(value) => value.max_moves,
                        None => None,
                    };
                    match exercise_type {
                        ExerciseType::Checkmate | ExerciseType::Puzzle | ExerciseType::Tactics => {
                            ObjectiveSpec::Checkmate {
                                max_moves: match max_moves {
                                    Some(m) => Some(m),
                                    None => Some(1),
                                },
                            }
                        },
                        ExerciseType::CheckEscape => ObjectiveSpec::EscapeCheck,
                        ExerciseType::CaptureTraining => ObjectiveSpec::Capture {
                            piece: None,
                            within_moves: match max_moves {
                                Some(m) => Some(m),
                                None => Some(2),
                            },
                        },
                        ExerciseType::PieceMovement => ObjectiveSpec::MovePiece {
                            piece: match request.piece {
                                Some(p) => p,
                                None => Piece::Knight,
                            },
                            target: Some(target),
                        },
                        ExerciseType::Opening | ExerciseType::Endgame | ExerciseType::FullGame
                        | ExerciseType::FreePlay => ObjectiveSpec::PlayFullGame,
                    }
                },
            },
        };
        let opponent = match config {
            Some(ExerciseConfig { opponent: Some(o), .. }) => Some(o.copied()),
            _ => match &request.opponent {
                Some(o) => Some(o.copied()),
                None => if exercise_type == ExerciseType::FullGame {
                    Some(OpponentConfig::Engine { difficulty: 2 })
                } else {
                    None
                },
            },
        };
        let rules = match config {
            Some(value) => value.rules.copied(),
            None => {
                let defaults = ExerciseRules::default();
                ExerciseRules { show_legal_moves: request.config.show_legal_moves, ..defaults }
            },
        };
        let title_key = String::from_str("exercise_").concat(objective.kind());
        Ok(
            Exercise {
                exercise_type,
                title_key,
                initial_position: position,
                player_color: match request.player_color {
                    Some(c) => c,
                    None => Color::White,
                },
                objective,
                rules,
                opponent,
                difficulty,
            },
        )
    }
}

impl<R: ChessRulesEngine> PositionGenerator for DefaultExerciseFactory<R> {
    fn generate(&self, exercise_type: ExerciseType, piece: Option<Piece>) -> (res: Result<Position, ExerciseError>)
        ensures
            exercise_result_view(res) == generate_spec(exercise_type, piece),
    {
        self.generate_position(exercise_type, piece)
    }
}

impl<R: ChessRulesEngine> ExerciseFactory for DefaultExerciseFactory<R> {
    fn create(&self, request: &ExerciseRequest) -> (res: Result<Exercise, ExerciseError>)
        ensures
            exercise_result_view(res) == create_spec(&self.rules(), *request),
    {
        self.create_exercise(request)
    }
}

/// An exercise keeps the objective its request names (the request's own before its
/// exercise part's); when neither names one, it gets the default of its type: mate
/// (within the move budget, else one move) for checkmate, puzzle and tactics
/// exercises, escaping check for check-escape exercises, a capture of any piece
/// (within the budget, else two moves) for capture training, moving the trained
/// piece (a knight when none is named) to the target for piece movement, and a full
/// game otherwise. The title names the objective.
pub proof fn law_exercise_objectives<R: ChessRulesEngine>(rules: &R, request: ExerciseRequest)
    ensures
        create_spec(rules, request) matches Ok(ex) ==> {
            let budget = match request.exercise {
                Some(config) => config.max_moves,
                None => None,
            };
            let named = match request.exercise {
                Some(config) => config.objective,
                None => None,
            };
            &&& ex.title_key == "exercise_"@ + kind_name(ex.objective)
            &&& (request.objective matches Some(o) ==> ex.objective == o@)
            &&& (request.objective is None ==> (named matches Some(o) ==> ex.objective == o@))
            &&& (request.objective is None && named is None) ==> {
                &&& (ex.exercise_type == ExerciseType::Checkmate || ex.exercise_type == ExerciseType::Puzzle
                    || ex.exercise_type == ExerciseType::Tactics) ==> ex.objective == (ObjectiveView::Checkmate {
                    max_moves: Some(
                        match budget {
                            Some(n) => n,
                            None => 1,
                        },
                    ),
                })
                &&& ex.exercise_type == ExerciseType::CheckEscape ==> ex.objective == ObjectiveView::EscapeCheck
                    && ex.title_key == "exercise_escape_check"@
                &&& ex.exercise_type == ExerciseType::CaptureTraining ==> ex.objective == (ObjectiveView::Capture {
                    piece: None,
                    within_moves: Some(
                        match budget {
                            Some(n) => n,
                            None => 2,
                        },
                    ),
                })
                &&& ex.exercise_type == ExerciseType::PieceMovement ==> ex.objective == (ObjectiveView::MovePiece {
                    piece: match request.piece {
                        Some(p) => p,
                        None => Piece::Knight,
                    },
                    target: Some(
                        match request.config.target {
                            Some(t) => t@,
                            None => default_target(request.piece),
                        },
                    ),
                })
                &&& (ex.exercise_type == ExerciseType::Opening || ex.exercise_type == ExerciseType::Endgame
                    || ex.exercise_type == ExerciseType::FullGame || ex.exercise_type == ExerciseType::FreePlay)
                    ==> ex.objective == ObjectiveView::PlayFullGame
            }
        },
        create_spec(rules, request) matches Ok(ex) ==> ex.exercise_type == (match request.exercise {
            Some(config) => config.exercise_type,
            None => match request.mode {
                SessionMode::PieceTraining => ExerciseType::PieceMovement,
                SessionMode::FullGame => ExerciseType::FullGame,
                SessionMode::FreePlay => ExerciseType::FreePlay,
                SessionMode::Exercise => ExerciseType::Puzzle,
            },
        }),
{
    reveal_strlit("exercise_");
    reveal_strlit("escape_check");
    reveal_strlit("exercise_escape_check");
    assert("exercise_"@ + "escape_check"@ =~= "exercise_escape_check"@);
}

} // verus!
