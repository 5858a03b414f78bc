//! The data that describes exercises: modes, types, objectives, rules and evaluations.
use vstd::prelude::*;

use crate::board::{ChessMove, Color, Piece, Position};

verus! {

/// How a session is organised.
#[derive(Debug, Clone, Copy, PartialEq, Eq, Structural)]
pub enum SessionMode {
    Exercise,
    PieceTraining,
    FullGame,
    FreePlay,
}

/// The family an exercise belongs to.
#[derive(Debug, Clone, Copy, PartialEq, Eq, Structural)]
pub enum ExerciseType {
    PieceMovement,
    Puzzle,
    Checkmate,
    Tactics,
    Opening,
    Endgame,
    FullGame,
    FreePlay,
    CheckEscape,
    CaptureTraining,
}

/// How hard an exercise is meant to be.
#[derive(Debug, Clone, Copy, PartialEq, Eq, Structural)]
pub enum Difficulty {
    Beginner,
    Intermediate,
    Advanced,
}

impl Default for Difficulty {
    fn default() -> (res: Difficulty)
        ensures
            res == Difficulty::Beginner,
    {
        Difficulty::Beginner
    }
}

/// Where the starting position comes from: a FEN, or a named generator.
#[derive(Debug, Clone)]
pub struct PositionSource {
    pub fen: Option<String>,
    pub generator: Option<String>,
}

/// What the board allows during an exercise.
#[derive(Debug, Clone)]
pub struct ExerciseRules {
    pub allow_undo: bool,
    pub show_legal_moves: bool,
    pub show_check: bool,
    pub move_limit: u16,
}

/// The value of a flag that is on unless said otherwise.
pub fn yes() -> (res: bool)
    ensures
        res,
{
    true
}

/// The move limit of an exercise that sets none.
pub fn default_move_limit() -> (res: u16)
    ensures
        res == 256,
{
    256
}

impl Default for ExerciseRules {
    fn default() -> (res: ExerciseRules)
        ensures
            res == (ExerciseRules { allow_undo: false, show_legal_moves: true, show_check: true, move_limit: 256 }),
    {
        ExerciseRules {
            allow_undo: false,
            show_legal_moves: true,
            show_check: true,
            move_limit: default_move_limit(),
        }
    }
}

impl ExerciseRules {
    /// A copy of the rules.
    pub fn copied(&self) -> (res: ExerciseRules)
        ensures
            res == *self,
    {
        ExerciseRules {
            allow_undo: self.allow_undo,
            show_legal_moves: self.show_legal_moves,
            show_check: self.show_check,
            move_limit: self.move_limit,
        }
    }
}

/// Options of a piece-training session.
#[derive(Debug, Clone)]
pub struct TrainingConfig {
    pub show_legal_moves: bool,
    pub number_of_tasks: u16,
    pub target: Option<String>,
}

/// The number of tasks of a training that sets none.
pub fn default_task_count() -> (res: u16)
    ensures
        res == 1,
{
    1
}

impl Default for TrainingConfig {
    fn default() -> (res: TrainingConfig)
        ensures
            res.show_legal_moves,
            res.number_of_tasks == 1,
            res.target is None,
    {
        TrainingConfig { show_legal_moves: true, number_of_tasks: default_task_count(), target: None }
    }
}

/// Who answers the player's moves.
#[derive(Debug, Clone)]
pub enum OpponentConfig {
    Engine { difficulty: u8 },
    Human,
}

/// The engine level of an engine opponent that sets none.
pub fn default_engine_level() -> (res: u8)
    ensures
        res == 2,
{
    2
}

impl OpponentConfig {
    /// A copy of the opponent.
    pub fn copied(&self) -> (res: OpponentConfig)
        ensures
            res == *self,
    {
        match self {
            OpponentConfig::Engine { difficulty } => OpponentConfig::Engine { difficulty: *difficulty },
            OpponentConfig::Human => OpponentConfig::Human,
        }
    }
}

/// What the player has to achieve.
#[derive(Debug, Clone)]
pub enum ObjectiveSpec {
    Checkmate { max_moves: Option<u16> },
    Check,
    Capture { piece: Option<Piece>, within_moves: Option<u16> },
    MovePiece { piece: Piece, target: Option<String> },
    ReachSquare { target: String },
    Promote,
    EscapeCheck,
    WinMaterial,
    Survive { moves: u16 },
    BestMove { uci: String },
    CompleteSequence { moves: Vec<String> },
    PlayFullGame,
}

/// An objective with its texts as character sequences.
pub ghost enum ObjectiveView {
    Checkmate { max_moves: Option<u16> },
    Check,
    Capture { piece: Option<Piece>, within_moves: Option<u16> },
    MovePiece { piece: Piece, target: Option<Seq<char>> },
    ReachSquare { target: Seq<char> },
    Promote,
    EscapeCheck,
    WinMaterial,
    Survive { moves: u16 },
    BestMove { uci: Seq<char> },
    CompleteSequence { moves: Seq<Seq<char>> },
    PlayFullGame,
}

/// The view of an optional text.
pub open spec fn text_view(t: Option<String>) -> Option<Seq<char>> {
    match t {
        Some(s) => Some(s@),
        None => None,
    }
}

impl View for ObjectiveSpec {
    type V = ObjectiveView;

    open spec fn view(&self) -> ObjectiveView {
        match self {
            ObjectiveSpec::Checkmate { max_moves } => ObjectiveView::Checkmate { max_moves: *max_moves },
            ObjectiveSpec::Check => ObjectiveView::Check,
            ObjectiveSpec::Capture { piece, within_moves } => ObjectiveView::Capture {
                piece: *piece,
                within_moves: *within_moves,
            },
            ObjectiveSpec::MovePiece { piece, target } => ObjectiveView::MovePiece {
                piece: *piece,
                target: text_view(*target),
            },
            ObjectiveSpec::ReachSquare { target } => ObjectiveView::ReachSquare { target: target@ },
            ObjectiveSpec::Promote => ObjectiveView::Promote,
            ObjectiveSpec::EscapeCheck => ObjectiveView::EscapeCheck,
            ObjectiveSpec::WinMaterial => ObjectiveView::WinMaterial,
            ObjectiveSpec::Survive { moves } => ObjectiveView::Survive { moves: *moves },
            ObjectiveSpec::BestMove { uci } => ObjectiveView::BestMove { uci: uci@ },
            ObjectiveSpec::CompleteSequence { moves } => ObjectiveView::CompleteSequence { moves: moves.deep_view() },
            ObjectiveSpec::PlayFullGame => ObjectiveView::PlayFullGame,
        }
    }
}

/// The name of an objective's kind, as used in message keys.
pub open spec fn kind_name(o: ObjectiveView) -> Seq<char> {
    match o {
        ObjectiveView::Checkmate { .. } => "checkmate"@,
        ObjectiveView::Check => "check"@,
        ObjectiveView::Capture { .. } => "capture"@,
        ObjectiveView::MovePiece { .. } => "move_piece"@,
        ObjectiveView::ReachSquare { .. } => "reach_square"@,
        ObjectiveView::Promote => "promote"@,
        ObjectiveView::EscapeCheck => "escape_check"@,
        ObjectiveView::WinMaterial => "win_material"@,
        ObjectiveView::Survive { .. } => "survive"@,
        ObjectiveView::BestMove { .. } => "best_move"@,
        ObjectiveView::CompleteSequence { .. } => "complete_sequence"@,
        ObjectiveView::PlayFullGame => "play_full_game"@,
    }
}

/// A copy of an optional text.
pub fn copy_text(t: &Option<String>) -> (res: Option<String>)
    ensures
        res == *t,
{
    match t {
        Some(s) => Some(s.clone()),
        None => None,
    }
}

/// A copy of a list of texts.
pub fn copy_texts(v: &Vec<String>) -> (res: Vec<String>)
    ensures
        res@ == v@,
{
    let mut res: Vec<String> = Vec::new();
    let mut i: usize = 0;
    while i < v.len()
        invariant
            i <= v.len(),
            res@ == v@.take(i as int),
        decreases v.len() - i,
    {
        res.push(v[i].clone());
        i = i + 1;
        proof {
            assert(res@ =~= v@.take(i as int));
        }
    }
    proof {
        assert(v@.take(v@.len() as int) =~= v@);
    }
    res
}

impl ObjectiveSpec {
    /// The objective's kind name.
    pub fn kind(&self) -> (res: &'static str)
        ensures
            res@ == kind_name(self@),
    {
        match self {
            ObjectiveSpec::Checkmate { .. } => "checkmate",
            ObjectiveSpec::Check => "check",
            ObjectiveSpec::Capture { .. } => "capture",
            ObjectiveSpec::MovePiece { .. } => "move_piece",
            ObjectiveSpec::ReachSquare { .. } => "reach_square",
            ObjectiveSpec::Promote => "promote",
            ObjectiveSpec::EscapeCheck => "escape_check",
            ObjectiveSpec::WinMaterial => "win_material",
            ObjectiveSpec::Survive { .. } => "survive",
            ObjectiveSpec::BestMove { .. } => "best_move",
            ObjectiveSpec::CompleteSequence { .. } => "complete_sequence",
            ObjectiveSpec::PlayFullGame => "play_full_game",
        }
    }

    /// A copy of the objective.
    pub fn copied(&self) -> (res: ObjectiveSpec)
        ensures
            res@ == self@,
    {
        match self {
            ObjectiveSpec::Checkmate { max_moves } => ObjectiveSpec::Checkmate { max_moves: *max_moves },
            ObjectiveSpec::Check => ObjectiveSpec::Check,
            ObjectiveSpec::Capture { piece, within_moves } => ObjectiveSpec::Capture {
                piece: *piece,
                within_moves: *within_moves,
            },
            ObjectiveSpec::MovePiece { piece, target } => ObjectiveSpec::MovePiece {
                piece: *piece,
                target: copy_text(target),
            },
            ObjectiveSpec::ReachSquare { target } => ObjectiveSpec::ReachSquare { target: target.clone() },
            ObjectiveSpec::Promote => ObjectiveSpec::Promote,
            ObjectiveSpec::EscapeCheck => ObjectiveSpec::EscapeCheck,
            ObjectiveSpec::WinMaterial => ObjectiveSpec::WinMaterial,
            ObjectiveSpec::Survive { moves } => ObjectiveSpec::Survive { moves: *moves },
            ObjectiveSpec::BestMove { uci } => ObjectiveSpec::BestMove { uci: uci.clone() },
            ObjectiveSpec::CompleteSequence { moves } => {
                let copy = copy_texts(moves);
                proof {
                    assert(copy.deep_view() =~= moves.deep_view());
                }
                ObjectiveSpec::CompleteSequence { moves: copy }
            },
            ObjectiveSpec::PlayFullGame => ObjectiveSpec::PlayFullGame,
        }
    }
}

/// The exercise part of a session request.
#[derive(Debug, Clone)]
pub struct ExerciseConfig {
    pub exercise_type: ExerciseType,
    pub difficulty: Difficulty,
    pub max_moves: Option<u16>,
    pub position: Option<PositionSource>,
    pub objective: Option<ObjectiveSpec>,
    pub rules: ExerciseRules,
    pub opponent: Option<OpponentConfig>,
}

/// A request for a new session.
#[derive(Debug, Clone)]
pub struct ExerciseRequest {
    pub mode: SessionMode,
    pub exercise: Option<ExerciseConfig>,
    pub piece: Option<Piece>,
    pub difficulty: Difficulty,
    pub config: TrainingConfig,
    pub position: Option<PositionSource>,
    pub objective: Option<ObjectiveSpec>,
    pub player_color: Option<Color>,
    pub opponent: Option<OpponentConfig>,
}

/// A fully resolved exercise.
#[derive(Debug, Clone)]
pub struct Exercise {
    pub exercise_type: ExerciseType,
    pub title_key: String,
    pub initial_position: Position,
    pub player_color: Color,
    pub objective: ObjectiveSpec,
    pub rules: ExerciseRules,
    pub opponent: Option<OpponentConfig>,
    pub difficulty: Difficulty,
}

/// An exercise with its texts as character sequences.
pub ghost struct ExerciseView {
    pub exercise_type: ExerciseType,
    pub title_key: Seq<char>,
    pub initial_position: Seq<char>,
    pub player_color: Color,
    pub objective: ObjectiveView,
    pub rules: ExerciseRules,
    pub opponent: Option<OpponentConfig>,
    pub difficulty: Difficulty,
}

impl View for Exercise {
    type V = ExerciseView;

    open spec fn view(&self) -> ExerciseView {
        ExerciseView {
            exercise_type: self.exercise_type,
            title_key: self.title_key@,
            initial_position: self.initial_position@,
            player_color: self.player_color,
            objective: self.objective@,
            rules: self.rules,
            opponent: self.opponent,
            difficulty: self.difficulty,
        }
    }
}

impl Exercise {
    /// A copy of the exercise.
    pub fn copied(&self) -> (res: Exercise)
        ensures
            res@ == self@,
    {
        Exercise {
            exercise_type: self.exercise_type,
            title_key: self.title_key.clone(),
            initial_position: self.initial_position.copied(),
            player_color: self.player_color,
            objective: self.objective.copied(),
            rules: self.rules.copied(),
            opponent: match &self.opponent {
                Some(o) => Some(o.copied()),
                None => None,
            },
            difficulty: self.difficulty,
        }
    }
}

/// Where an objective stands.
#[derive(Debug, Clone, Copy, PartialEq, Eq, Structural)]
pub enum ObjectiveStatus {
    InProgress,
    Completed,
    Failed,
}

/// How far an objective is, as the fraction `done / total` (shown clamped below one
/// while the objective is in progress).
#[derive(Debug, Clone, Copy, PartialEq, Eq, Structural)]
pub struct Progress {
    pub done: u64,
    pub total: u64,
}

/// An evaluation with its texts as character sequences.
pub ghost struct EvaluationView {
    pub status: ObjectiveStatus,
    pub progress: Progress,
    pub message_key: Seq<char>,
    pub variables: Seq<(Seq<char>, Seq<char>)>,
}

/// The evaluation of an objective after a move.
#[derive(Debug, Clone)]
pub struct ObjectiveEvaluation {
    pub status: ObjectiveStatus,
    pub progress: Progress,
    pub message_key: String,
    pub variables: Vec<(String, String)>,
}

impl View for ObjectiveEvaluation {
    type V = EvaluationView;

    open spec fn view(&self) -> EvaluationView {
        EvaluationView {
            status: self.status,
            progress: self.progress,
            message_key: self.message_key@,
            variables: self.variables.deep_view(),
        }
    }
}

/// An evaluation in progress, `done / total` of the way.
pub open spec fn progressing(done: u64, total: u64) -> EvaluationView {
    EvaluationView {
        status: ObjectiveStatus::InProgress,
        progress: Progress { done, total },
        message_key: "objective_in_progress"@,
        variables: Seq::empty(),
    }
}

/// A completed evaluation.
pub open spec fn achieved() -> EvaluationView {
    EvaluationView {
        status: ObjectiveStatus::Completed,
        progress: Progress { done: 1, total: 1 },
        message_key: "objective_completed"@,
        variables: Seq::empty(),
    }
}

/// A failed evaluation with the reason's message key.
pub open spec fn failure(message_key: Seq<char>) -> EvaluationView {
    EvaluationView {
        status: ObjectiveStatus::Failed,
        progress: Progress { done: 0, total: 1 },
        message_key,
        variables: Seq::empty(),
    }
}

impl ObjectiveEvaluation {
    /// A copy of the evaluation.
    pub fn copied(&self) -> (res: ObjectiveEvaluation)
        ensures
            res@ == self@,
    {
        let mut variables: Vec<(String, String)> = Vec::new();
        let mut i: usize = 0;
        while i < self.variables.len()
            invariant
                i <= self.variables.len(),
                variables.deep_view() == self.variables.deep_view().take(i as int),
            decreases self.variables.len() - i,
        {
            let pair = (self.variables[i].0.clone(), self.variables[i].1.clone());
            let ghost before = variables.deep_view();
            proof {
                assert(pair.deep_view() == self.variables@[i as int].deep_view());
            }
            variables.push(pair);
            proof {
                assert(variables.deep_view() =~= before.push(pair.deep_view()));
                assert(self.variables.deep_view().take(i + 1) =~= self.variables.deep_view().take(i as int).push(self.variables@[i as int].deep_view()));
            }
            i = i + 1;
        }
        proof {
            assert(self.variables.deep_view().take(self.variables.len() as int) =~= self.variables.deep_view());
        }
        ObjectiveEvaluation {
            status: self.status,
            progress: self.progress,
            message_key: self.message_key.clone(),
            variables,
        }
    }

    /// An objective still in progress, `done / total` of the way.
    pub fn in_progress(done: u64, total: u64) -> (res: ObjectiveEvaluation)
        ensures
            res@ == progressing(done, total),
    {
        let res = ObjectiveEvaluation {
            status: ObjectiveStatus::InProgress,
            progress: Progress { done, total },
            message_key: String::from_str("objective_in_progress"),
            variables: Vec::new(),
        };
        proof {
            assert(res.variables.deep_view() =~= Seq::<(Seq<char>, Seq<char>)>::empty());
        }
        res
    }

    /// A completed objective.
    pub fn completed() -> (res: ObjectiveEvaluation)
        ensures
            res@ == achieved(),
    {
        let res = ObjectiveEvaluation {
            status: ObjectiveStatus::Completed,
            progress: Progress { done: 1, total: 1 },
            message_key: String::from_str("objective_completed"),
            variables: Vec::new(),
        };
        proof {
            assert(res.variables.deep_view() =~= Seq::<(Seq<char>, Seq<char>)>::empty());
        }
        res
    }

    /// A failed objective, with the reason's message key.
    pub fn failed(message_key: &str) -> (res: ObjectiveEvaluation)
        ensures
            res@ == failure(message_key@),
    {
        let res = ObjectiveEvaluation {
            status: ObjectiveStatus::Failed,
            progress: Progress { done: 0, total: 1 },
            message_key: message_key.to_owned(),
            variables: Vec::new(),
        };
        proof {
            assert(res.variables.deep_view() =~= Seq::<(Seq<char>, Seq<char>)>::empty());
        }
        res
    }
}

/// A hint with its texts as character sequences.
pub ghost struct HintView {
    pub level: u8,
    pub hint_type: Seq<char>,
    pub square: Option<Seq<char>>,
    pub squares: Seq<Seq<char>>,
    pub chess_move: Option<crate::board::MoveView>,
}

/// A hint, from naming the piece to move up to giving the whole move.
#[derive(Debug, Clone)]
pub struct StructuredHint {
    pub level: u8,
    pub hint_type: String,
    pub square: Option<String>,
    pub squares: Vec<String>,
    pub chess_move: Option<ChessMove>,
}

impl View for StructuredHint {
    type V = HintView;

    open spec fn view(&self) -> HintView {
        HintView {
            level: self.level,
            hint_type: self.hint_type@,
            square: text_view(self.square),
            squares: self.squares.deep_view(),
            chess_move: match self.chess_move {
                Some(m) => Some(m@),
                None => None,
            },
        }
    }
}

} // verus!
