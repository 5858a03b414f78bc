//! Session state, metrics and the values a session hands back.
use vstd::prelude::*;

use crate::board::{ChessMove, Color, MoveView, Position};
use crate::exercise::{
    EvaluationView, Exercise, ExerciseView, HintView, ObjectiveEvaluation, StructuredHint,
};

verus! {

/// Where a session stands.
#[derive(Debug, Clone, Copy, PartialEq, Eq, Structural)]
pub enum SessionStatus {
    Created,
    InProgress,
    Completed,
    Failed,
    Abandoned,
}

/// Counters of a session.
#[derive(Debug, Clone, Copy, PartialEq, Eq, Structural)]
pub struct SessionMetrics {
    pub moves: u32,
    pub correct_moves: u32,
    pub incorrect_moves: u32,
    pub hints_used: u32,
    pub duration_ms: u64,
}

impl Default for SessionMetrics {
    fn default() -> (res: SessionMetrics)
        ensures
            res == zero_metrics(),
    {
        SessionMetrics { moves: 0, correct_moves: 0, incorrect_moves: 0, hints_used: 0, duration_ms: 0 }
    }
}

/// Metrics of a fresh session.
pub open spec fn zero_metrics() -> SessionMetrics {
    SessionMetrics { moves: 0, correct_moves: 0, incorrect_moves: 0, hints_used: 0, duration_ms: 0 }
}

/// A played move as data for contracts.
pub ghost struct RecordView {
    pub ply: u32,
    pub chess_move: MoveView,
    pub color: Color,
    pub fen_before: Seq<char>,
    pub fen_after: Seq<char>,
    pub played_at: i64,
}

/// A move of the session's history. Times are nanoseconds since the Unix epoch.
#[derive(Debug, Clone)]
pub struct MoveRecord {
    pub ply: u32,
    pub chess_move: ChessMove,
    pub color: Color,
    pub fen_before: String,
    pub fen_after: String,
    pub played_at: i64,
}

impl View for MoveRecord {
    type V = RecordView;

    open spec fn view(&self) -> RecordView {
        RecordView {
            ply: self.ply,
            chess_move: self.chess_move@,
            color: self.color,
            fen_before: self.fen_before@,
            fen_after: self.fen_after@,
            played_at: self.played_at,
        }
    }
}

impl DeepView for MoveRecord {
    type V = RecordView;

    open spec fn deep_view(&self) -> RecordView {
        self@
    }
}

impl MoveRecord {
    /// A copy of the record.
    pub fn copied(&self) -> (res: MoveRecord)
        ensures
            res@ == self@,
    {
        MoveRecord {
            ply: self.ply,
            chess_move: self.chess_move.copied(),
            color: self.color,
            fen_before: self.fen_before.clone(),
            fen_after: self.fen_after.clone(),
            played_at: self.played_at,
        }
    }
}

/// A copy of a history.
pub fn copy_history(history: &Vec<MoveRecord>) -> (res: Vec<MoveRecord>)
    ensures
        res.deep_view() == history.deep_view(),
{
    let mut res: Vec<MoveRecord> = Vec::new();
    let mut i: usize = 0;
    while i < history.len()
        invariant
            i <= history.len(),
            res.deep_view() == history.deep_view().take(i as int),
        decreases history.len() - i,
    {
        let record = history[i].copied();
        let ghost before = res.deep_view();
        res.push(record);
        proof {
            assert(res.deep_view() =~= before.push(record@));
            assert(history.deep_view().take(i + 1) =~= history.deep_view().take(i as int).push(history@[i as int]@));
        }
        i = i + 1;
    }
    proof {
        assert(history.deep_view().take(history.len() as int) =~= history.deep_view());
    }
    res
}

/// A session as data for contracts.
pub ghost struct SessionView {
    pub id: u128,
    pub exercise: ExerciseView,
    pub position: Seq<char>,
    pub player_color: Color,
    pub status: SessionStatus,
    pub history: Seq<RecordView>,
    pub metrics: SessionMetrics,
    pub objective: EvaluationView,
    pub hint_level: u8,
    pub created_at: i64,
    pub updated_at: i64,
}

/// A learning session: an exercise being played. The id is the session UUID as a
/// 128-bit number; times are nanoseconds since the Unix epoch.
#[derive(Debug, Clone)]
pub struct ChessSession {
    pub id: u128,
    pub exercise: Exercise,
    pub position: Position,
    pub player_color: Color,
    pub status: SessionStatus,
    pub history: Vec<MoveRecord>,
    pub metrics: SessionMetrics,
    pub objective: ObjectiveEvaluation,
    pub hint_level: u8,
    pub created_at: i64,
    pub updated_at: i64,
}

impl View for ChessSession {
    type V = SessionView;

    open spec fn view(&self) -> SessionView {
        SessionView {
            id: self.id,
            exercise: self.exercise@,
            position: self.position@,
            player_color: self.player_color,
            status: self.status,
            history: self.history.deep_view(),
            metrics: self.metrics,
            objective: self.objective@,
            hint_level: self.hint_level,
            created_at: self.created_at,
            updated_at: self.updated_at,
        }
    }
}

impl ChessSession {
    /// A copy of the session.
    pub fn copied(&self) -> (res: ChessSession)
        ensures
            res@ == self@,
    {
        ChessSession {
            id: self.id,
            exercise: self.exercise.copied(),
            position: self.position.copied(),
            player_color: self.player_color,
            status: self.status,
            history: copy_history(&self.history),
            metrics: self.metrics,
            objective: self.objective.copied(),
            hint_level: self.hint_level,
            created_at: self.created_at,
            updated_at: self.updated_at,
        }
    }
}

/// How the board may be handled.
#[derive(Debug, Clone, Copy, PartialEq, Eq, Structural)]
pub struct BoardInteraction {
    pub drag_enabled: bool,
    pub click_enabled: bool,
}

/// What the board shows.
#[derive(Debug, Clone, Copy, PartialEq, Eq, Structural)]
pub struct BoardUiConfig {
    pub orientation: Color,
    pub interaction: BoardInteraction,
    pub hints_enabled: bool,
    pub show_legal_moves: bool,
    pub show_coordinates: bool,
}

/// The board configuration of a session.
pub open spec fn board_ui_spec(session: SessionView) -> BoardUiConfig {
    BoardUiConfig {
        orientation: session.player_color,
        interaction: BoardInteraction { drag_enabled: true, click_enabled: true },
        hints_enabled: true,
        show_legal_moves: session.exercise.rules.show_legal_moves,
        show_coordinates: true,
    }
}

impl BoardUiConfig {
    /// The board configuration of a session.
    pub fn from_session(session: &ChessSession) -> (res: BoardUiConfig)
        ensures
            res == board_ui_spec(session@),
    {
        BoardUiConfig {
            orientation: session.player_color,
            interaction: BoardInteraction { drag_enabled: true, click_enabled: true },
            hints_enabled: true,
            show_legal_moves: session.exercise.rules.show_legal_moves,
            show_coordinates: true,
        }
    }
}

/// What a client sees of a session.
#[derive(Debug, Clone)]
pub struct SessionSnapshot {
    pub session_id: u128,
    pub status: SessionStatus,
    pub board: Position,
    pub player_color: Color,
    pub exercise: Exercise,
    pub objective: ObjectiveEvaluation,
    pub metrics: SessionMetrics,
    pub history: Vec<MoveRecord>,
    pub legal_moves: Vec<ChessMove>,
    pub ui: BoardUiConfig,
    pub ui_url: String,
}

/// The tone of feedback on a move.
#[derive(Debug, Clone, Copy, PartialEq, Eq, Structural)]
pub enum FeedbackType {
    Correct,
    Incorrect,
    Informational,
}

/// Feedback as a message key with variables, for the client to render.
#[derive(Debug, Clone)]
pub struct StructuredFeedback {
    pub feedback_type: FeedbackType,
    pub message_key: String,
    pub variables: Vec<(String, String)>,
}

/// The outcome of a move.
#[derive(Debug, Clone)]
pub struct PlayMoveResult {
    pub valid: bool,
    pub position: Position,
    pub status: SessionStatus,
    pub feedback: StructuredFeedback,
    pub objective: ObjectiveEvaluation,
    pub metrics: SessionMetrics,
    pub legal_moves: Vec<ChessMove>,
    pub engine_move: Option<ChessMove>,
}

/// A hint with the metrics after it.
#[derive(Debug, Clone)]
pub struct HintResult {
    pub hint: StructuredHint,
    pub metrics: SessionMetrics,
}

} // verus!
