//! The session lifecycle: creating, playing, hinting, resetting, as steps from a
//! session and an input to the next session and a reply.
use vstd::prelude::*;

use crate::board::{
    from_uci_spec, halfmove_clock_spec, repetition_key, repetition_key_spec, ChessError,
    ChessFault, ChessMove, Color, MoveView, Position, PositionStatus,
};
use crate::engine::{choice_ok, engine_choice, level_spec, EngineError, EngineFault};
use crate::exercise::{
    achieved, progressing, EvaluationView, Exercise, ObjectiveEvaluation, ObjectiveSpec, ObjectiveStatus,
    ObjectiveView, OpponentConfig, StructuredHint,
};
use crate::generator::{create_spec, exercise_fault_text, DefaultExerciseFactory, ExerciseFault};
use crate::objective::{evaluation_spec, DefaultObjectiveEvaluator, ObjectiveContext};
use crate::repository::{RepositoryError, RepositoryFault};
use crate::rules::{moves_view, ChessRulesEngine};
use crate::session::{
    copy_history, zero_metrics, BoardUiConfig, ChessSession, FeedbackType, HintResult, MoveRecord,
    PlayMoveResult, RecordView, SessionMetrics, SessionSnapshot, SessionStatus, SessionView, StructuredFeedback,
};

verus! {

/// Why a session operation failed, as data for contracts.
pub ghost enum SessionFault {
    NotFound,
    NotPlayable,
    NotPlayerTurn,
    MoveLimitReached,
    Exercise(Seq<char>),
    Chess(ChessFault),
    Repository(RepositoryFault),
    Engine(EngineFault),
    EngineTask,
    EngineTimeout,
}

/// Errors of session operations.
#[derive(Debug)]
pub enum SessionError {
    NotFound,
    NotPlayable,
    NotPlayerTurn,
    MoveLimitReached,
    Exercise(String),
    Chess(ChessError),
    Repository(RepositoryError),
    Engine(EngineError),
    EngineTask,
    EngineTimeout,
}

impl View for SessionError {
    type V = SessionFault;

    open spec fn view(&self) -> SessionFault {
        match self {
            SessionError::NotFound => SessionFault::NotFound,
            SessionError::NotPlayable => SessionFault::NotPlayable,
            SessionError::NotPlayerTurn => SessionFault::NotPlayerTurn,
            SessionError::MoveLimitReached => SessionFault::MoveLimitReached,
            SessionError::Exercise(s) => SessionFault::Exercise(s@),
            SessionError::Chess(e) => SessionFault::Chess(e@),
            SessionError::Repository(e) => SessionFault::Repository(e@),
            SessionError::Engine(e) => SessionFault::Engine(e@),
            SessionError::EngineTask => SessionFault::EngineTask,
            SessionError::EngineTimeout => SessionFault::EngineTimeout,
        }
    }
}

/// The view of a session result.
pub open spec fn session_result_view<T: View>(r: Result<T, SessionError>) -> Result<T::V, SessionFault> {
    match r {
        Ok(t) => Ok(t@),
        Err(e) => Err(e@),
    }
}

/// The lowercase hexadecimal digit of a value below sixteen.
pub open spec fn hex_digit(v: int) -> char {
    if v < 10 {
        (48 + v) as char
    } else {
        (87 + v) as char
    }
}

/// Hexadecimal digit `d` of a 128-bit number, counted from the most significant.
pub open spec fn nibble(id: u128, d: int) -> int {
    (id as int / vstd::arithmetic::power::pow(16, (31 - d) as nat)) % 16
}

/// Character `i` of the hyphenated text of a UUID.
pub open spec fn uuid_char(id: u128, i: int) -> char {
    if i == 8 || i == 13 || i == 18 || i == 23 {
        '-'
    } else {
        let d = if i < 8 {
            i
        } else if i < 13 {
            i - 1
        } else if i < 18 {
            i - 2
        } else if i < 23 {
            i - 3
        } else {
            i - 4
        };
        hex_digit(nibble(id, d))
    }
}

/// The hyphenated lowercase text of a UUID given as a 128-bit number (`Uuid`'s
/// `Display`): its 32 hexadecimal digits, most significant first, in groups of 8, 4,
/// 4, 4 and 12 joined by hyphens.
pub open spec fn uuid_text(id: u128) -> Seq<char> {
    Seq::new(36, |i: int| uuid_char(id, i))
}

/// `Uuid::from_u128(id).to_string()`: the number's 16 bytes, most significant first
/// (`from_u128`), written as hyphenated lowercase hexadecimal (`Display`).
#[verifier::external_body]
pub(crate) fn uuid_string(id: u128) -> (res: String)
    ensures
        res@ == uuid_text(id),
{
    uuid::Uuid::from_u128(id).to_string()
}

/// Feedback with no variables.
pub fn feedback(feedback_type: FeedbackType, message_key: &str) -> (res: StructuredFeedback)
    ensures
        res.feedback_type == feedback_type,
        res.message_key@ == message_key@,
        res.variables@.len() == 0,
{
    StructuredFeedback { feedback_type, message_key: message_key.to_owned(), variables: Vec::new() }
}

/// Whole milliseconds from `created` to `now` (nanoseconds), or zero if `now` is not later.
pub open spec fn duration_spec(created: i64, now: i64) -> u64 {
    if now > created {
        ((now - created) / 1_000_000) as u64
    } else {
        0
    }
}

/// The session with its duration measured at `now`.
pub open spec fn with_duration(s: SessionView, now: i64) -> SessionView {
    SessionView { metrics: SessionMetrics { duration_ms: duration_spec(s.created_at, now), ..s.metrics }, ..s }
}

fn update_duration(session: &mut ChessSession, now: i64)
    ensures
        final(session)@ == with_duration(old(session)@, now),
{
    let duration: u64 = if now > session.created_at {
        ((now as i128 - session.created_at as i128) / 1_000_000) as u64
    } else {
        0
    };
    session.metrics.duration_ms = duration;
}

/// A new session for an exercise.
pub open spec fn new_session_spec(exercise: crate::exercise::ExerciseView, id: u128, now: i64) -> SessionView {
    SessionView {
        id,
        exercise,
        position: exercise.initial_position,
        player_color: exercise.player_color,
        status: SessionStatus::Created,
        history: Seq::empty(),
        metrics: zero_metrics(),
        objective: progressing(0, 1),
        hint_level: 0,
        created_at: now,
        updated_at: now,
    }
}

/// What creating a session from a request gives.
pub open spec fn create_session_spec<R: ChessRulesEngine>(rules: &R, request: crate::exercise::ExerciseRequest, id: u128, now: i64) -> Result<SessionView, SessionFault> {
    match create_spec(rules, request) {
        Err(f) => Err(SessionFault::Exercise(exercise_fault_text(f))),
        Ok(exercise) => Ok(new_session_spec(exercise, id, now)),
    }
}

/// Builds the exercise a request describes and a fresh session around it.
pub fn create_session<R: ChessRulesEngine>(
    factory: &DefaultExerciseFactory<R>,
    request: &crate::exercise::ExerciseRequest,
    id: u128,
    now: i64,
) -> (res: Result<ChessSession, SessionError>)
    ensures
        session_result_view(res) == create_session_spec(&factory.rules(), *request, id, now),
{
    let exercise = match factory.create_exercise(request) {
        Ok(exercise) => exercise,
        Err(error) => return Err(SessionError::Exercise(error.message())),
    };
    let session = ChessSession {
        id,
        position: exercise.initial_position.copied(),
        player_color: exercise.player_color,
        exercise,
        status: SessionStatus::Created,
        history: Vec::new(),
        metrics: SessionMetrics::default(),
        objective: ObjectiveEvaluation::in_progress(0, 1),
        hint_level: 0,
        created_at: now,
        updated_at: now,
    };
    proof {
        assert(session.history.deep_view() =~= Seq::<RecordView>::empty());
    }
    Ok(session)
}

/// Moves are listed only while the session can still be played.
pub open spec fn shows_moves(status: SessionStatus) -> bool {
    !(status == SessionStatus::Completed || status == SessionStatus::Failed)
}

/// What a snapshot of a session at `now` shows, when it can be taken.
pub open spec fn snapshot_matches<R: ChessRulesEngine>(rules: &R, s: SessionView, now: i64, snap: SessionSnapshot) -> bool {
    let t = with_duration(s, now);
    &&& snap.session_id == t.id
    &&& snap.status == t.status
    &&& snap.board@ == t.position
    &&& snap.player_color == t.player_color
    &&& snap.exercise@ == t.exercise
    &&& snap.objective@ == t.objective
    &&& snap.metrics == t.metrics
    &&& snap.history.deep_view() == t.history
    &&& (if shows_moves(t.status) {
        rules.legal_moves_of(t.position) == Ok::<Seq<MoveView>, ChessFault>(snap.legal_moves.deep_view())
    } else {
        snap.legal_moves@.len() == 0
    })
    &&& snap.ui == crate::session::board_ui_spec(t)
    &&& snap.ui_url@ == "/play/"@ + uuid_text(t.id)
}

/// What a client sees of a session at `now`: its state, the legal moves while it can
/// be played, the board configuration and the page that shows it.
pub fn snapshot<R: ChessRulesEngine>(rules: &R, session: ChessSession, now: i64) -> (res: Result<SessionSnapshot, SessionError>)
    ensures
        res matches Ok(snap) ==> snapshot_matches(rules, session@, now, snap),
        res is Err ==> shows_moves(session.status) && rules.legal_moves_of(session.position@) is Err,
        res matches Err(e) ==> rules.legal_moves_of(session.position@) matches Err(f) && e@ == SessionFault::Chess(f),
        shows_moves(session.status) ==> (res is Ok <==> rules.legal_moves_of(session.position@) is Ok),
{
    let mut session = session;
    update_duration(&mut session, now);
    let legal_moves = if session.status == SessionStatus::Completed || session.status == SessionStatus::Failed {
        Vec::new()
    } else {
        match rules.legal_moves(&session.position) {
            Ok(moves) => moves,
            Err(error) => return Err(SessionError::Chess(error)),
        }
    };
    let ui = BoardUiConfig::from_session(&session);
    let ui_url = String::from_str("/play/").concat(uuid_string(session.id).as_str());
    Ok(
        SessionSnapshot {
            session_id: session.id,
            status: session.status,
            board: session.position,
            player_color: session.player_color,
            exercise: session.exercise,
            objective: session.objective,
            metrics: session.metrics,
            history: session.history,
            legal_moves,
            ui,
            ui_url,
        },
    )
}

/// The outcome of the player's move: refused as illegal (the session only counts it),
/// or played and judged.
pub enum MoveStep {
    Rejected(ChessSession),
    Accepted(ChessSession),
}

/// A move step as data for contracts.
pub ghost enum StepView {
    Rejected(SessionView),
    Accepted(SessionView),
}

impl View for MoveStep {
    type V = StepView;

    open spec fn view(&self) -> StepView {
        match self {
            MoveStep::Rejected(s) => StepView::Rejected(s@),
            MoveStep::Accepted(s) => StepView::Accepted(s@),
        }
    }
}

/// The session is over for moves.
pub open spec fn is_finished(status: SessionStatus) -> bool {
    status == SessionStatus::Completed || status == SessionStatus::Failed || status == SessionStatus::Abandoned
}

/// The counters can take one more move, one more verdict and one more history entry.
pub open spec fn room_for_move(s: SessionView) -> bool {
    &&& s.metrics.moves < u32::MAX
    &&& s.metrics.correct_moves < u32::MAX
    &&& s.metrics.incorrect_moves < u32::MAX
    &&& s.history.len() < u32::MAX
}

/// The moves of a history.
pub open spec fn history_moves(history: Seq<RecordView>) -> Seq<MoveView> {
    history.map_values(|r: RecordView| r.chess_move)
}

/// What the player's move does to a session.
pub open spec fn begin_move_spec<R: ChessRulesEngine>(rules: &R, s: SessionView, m: MoveView, now: i64) -> Result<StepView, SessionFault> {
    if is_finished(s.status) {
        Err(SessionFault::NotPlayable)
    } else if s.history.len() >= s.exercise.rules.move_limit {
        Err(SessionFault::MoveLimitReached)
    } else {
        match rules.status_of(s.position) {
            Err(f) => Err(SessionFault::Chess(f)),
            Ok(st) => if s.exercise.opponent is Some && st.side_to_move != s.player_color {
                Err(SessionFault::NotPlayerTurn)
            } else {
                let counted = SessionMetrics { moves: (s.metrics.moves + 1) as u32, ..s.metrics };
                match rules.after_move(s.position, m) {
                    Err(ChessFault::IllegalMove(_)) => Ok(
                        StepView::Rejected(
                            SessionView {
                                metrics: SessionMetrics {
                                    incorrect_moves: (counted.incorrect_moves + 1) as u32,
                                    duration_ms: duration_spec(s.created_at, now),
                                    ..counted
                                },
                                updated_at: now,
                                ..s
                            },
                        ),
                    ),
                    Err(f) => Err(SessionFault::Chess(f)),
                    Ok(after) => {
                        let history = s.history.push(
                            RecordView {
                                ply: (s.history.len() + 1) as u32,
                                chess_move: m,
                                color: st.side_to_move,
                                fen_before: s.position,
                                fen_after: after,
                                played_at: now,
                            },
                        );
                        let judged = evaluation_spec(
                            rules,
                            s.exercise.objective,
                            s.position,
                            after,
                            m,
                            history_moves(history),
                            s.player_color,
                        );
                        let (status, metrics) = if judged.status == ObjectiveStatus::Completed {
                            (SessionStatus::Completed, SessionMetrics { correct_moves: (counted.correct_moves + 1) as u32, ..counted })
                        } else if judged.status == ObjectiveStatus::Failed {
                            (SessionStatus::Failed, SessionMetrics { incorrect_moves: (counted.incorrect_moves + 1) as u32, ..counted })
                        } else {
                            (SessionStatus::InProgress, SessionMetrics { correct_moves: (counted.correct_moves + 1) as u32, ..counted })
                        };
                        Ok(StepView::Accepted(SessionView { status, position: after, history, metrics, objective: judged, ..s }))
                    },
                }
            },
        }
    }
}

/// Plays the player's move: checks that the session accepts it, counts it, and either
/// records it as illegal or plays it and judges the objective.
pub fn begin_move<R: ChessRulesEngine>(rules: &R, session: ChessSession, chess_move: &ChessMove, now: i64) -> (res: Result<MoveStep, SessionError>)
    requires
        room_for_move(session@),
    ensures
        session_result_view(res) == begin_move_spec(rules, session@, chess_move@, now),
{
    let mut session = session;
    if session.status == SessionStatus::Completed || session.status == SessionStatus::Failed
        || session.status == SessionStatus::Abandoned {
        return Err(SessionError::NotPlayable);
    }
    if session.history.len() >= session.exercise.rules.move_limit as usize {
        return Err(SessionError::MoveLimitReached);
    }
    let status = match rules.status(&session.position) {
        Ok(status) => status,
        Err(error) => return Err(SessionError::Chess(error)),
    };
    if session.exercise.opponent.is_some() && status.side_to_move != session.player_color {
        return Err(SessionError::NotPlayerTurn);
    }
    session.metrics.moves = session.metrics.moves + 1;
    let before = session.position.copied();
    let after = match rules.apply_move(&before, chess_move) {
        Ok(after) => after,
        Err(ChessError::IllegalMove(text)) => {
            session.metrics.incorrect_moves = session.metrics.incorrect_moves + 1;
            session.updated_at = now;
            update_duration(&mut session, now);
            return Ok(MoveStep::Rejected(session));
        },
        Err(error) => return Err(SessionError::Chess(error)),
    };
    session.status = SessionStatus::InProgress;
    session.position = after.copied();
    let ghost old_history = session.history.deep_view();
    let record = MoveRecord {
        ply: session.history.len() as u32 + 1,
        chess_move: chess_move.copied(),
        color: status.side_to_move,
        fen_before: before.fen.clone(),
        fen_after: after.fen.clone(),
        played_at: now,
    };
    session.history.push(record);
    proof {
        assert(session.history.deep_view() =~= old_history.push(record@));
    }
    let mut played: Vec<ChessMove> = Vec::new();
    let mut i: usize = 0;
    while i < session.history.len()
        invariant
            i <= session.history.len(),
            played.deep_view() == history_moves(session.history.deep_view()).take(i as int),
        decreases session.history.len() - i,
    {
        let ghost prior = played.deep_view();
        played.push(session.history[i].chess_move.copied());
        proof {
            assert(played.deep_view() =~= prior.push(session.history@[i as int].chess_move@));
            assert(history_moves(session.history.deep_view()).take(i + 1) =~= history_moves(session.history.deep_view()).take(i as int).push(session.history@[i as int].chess_move@));
        }
        i = i + 1;
    }
    proof {
        assert(history_moves(session.history.deep_view()).take(i as int) =~= history_moves(session.history.deep_view()));
        assert(played@.map_values(|h: ChessMove| h@) =~= played.deep_view());
    }
    let judged = DefaultObjectiveEvaluator::evaluate(
        rules,
        &ObjectiveContext {
            objective: &session.exercise.objective,
            before: &before,
            after: &after,
            chess_move,
            history: played.as_slice(),
            player_color: session.player_color,
        },
    );
    session.objective = judged;
    if session.objective.status == ObjectiveStatus::Completed {
        session.metrics.correct_moves = session.metrics.correct_moves + 1;
        session.status = SessionStatus::Completed;
    } else if session.objective.status == ObjectiveStatus::Failed {
        session.metrics.incorrect_moves = session.metrics.incorrect_moves + 1;
        session.status = SessionStatus::Failed;
    } else {
        session.metrics.correct_moves = session.metrics.correct_moves + 1;
    }
    Ok(MoveStep::Accepted(session))
}

/// When the engine should answer: an engine opponent, a game still going, and the
/// engine's side to move. Gives the position and the engine's level.
pub open spec fn engine_request_spec<R: ChessRulesEngine>(rules: &R, s: SessionView) -> Result<Option<(Seq<char>, u8)>, SessionFault> {
    match s.exercise.opponent {
        Some(OpponentConfig::Engine { difficulty }) => match rules.status_of(s.position) {
            Err(f) => Err(SessionFault::Chess(f)),
            Ok(st) => if st.game_over || st.side_to_move == s.player_color {
                Ok(None)
            } else {
                Ok(Some((s.position, difficulty)))
            },
        },
        _ => Ok(None),
    }
}

/// Decides whether the engine answers the player's move, and at which level.
pub fn engine_request<R: ChessRulesEngine>(rules: &R, session: &ChessSession) -> (res: Result<Option<(Position, u8)>, SessionError>)
    ensures
        match res {
            Ok(Some((p, level))) => engine_request_spec(rules, session@) == Ok::<Option<(Seq<char>, u8)>, SessionFault>(Some((p@, level))),
            Ok(None) => engine_request_spec(rules, session@) == Ok::<Option<(Seq<char>, u8)>, SessionFault>(None),
            Err(e) => engine_request_spec(rules, session@) == Err::<Option<(Seq<char>, u8)>, SessionFault>(e@),
        },
{
    let level = match session.exercise.opponent {
        Some(OpponentConfig::Engine { difficulty }) => difficulty,
        _ => return Ok(None),
    };
    let status = match rules.status(&session.position) {
        Ok(status) => status,
        Err(error) => return Err(SessionError::Chess(error)),
    };
    if status.game_over || status.side_to_move == session.player_color {
        return Ok(None);
    }
    Ok(Some((session.position.copied(), level)))
}

/// What the engine's move does to a session: it is recorded, and a finished game
/// completes the session.
pub open spec fn engine_move_spec<R: ChessRulesEngine>(rules: &R, s: SessionView, m: MoveView, now: i64) -> Result<SessionView, SessionFault> {
    match rules.status_of(s.position) {
        Err(f) => Err(SessionFault::Chess(f)),
        Ok(st) => match rules.after_move(s.position, m) {
            Err(f) => Err(SessionFault::Chess(f)),
            Ok(after) => {
                let recorded = SessionView {
                    history: s.history.push(
                        RecordView {
                            ply: (s.history.len() + 1) as u32,
                            chess_move: m,
                            color: st.side_to_move,
                            fen_before: s.position,
                            fen_after: after,
                            played_at: now,
                        },
                    ),
                    position: after,
                    ..s
                };
                match rules.status_of(after) {
                    Err(f) => Err(SessionFault::Chess(f)),
                    Ok(next) => if next.game_over {
                        Ok(SessionView { status: SessionStatus::Completed, objective: achieved(), ..recorded })
                    } else {
                        Ok(recorded)
                    },
                }
            },
        },
    }
}

/// The engine's move is recorded at the end of the history and leads to the position
/// the rules give for it; when the rules report that position's game as over, the
/// session is completed with its objective completed, and otherwise its status and
/// objective stay as they were.
pub proof fn law_engine_move_ends_a_finished_game<R: ChessRulesEngine>(rules: &R, s: SessionView, m: MoveView, now: i64)
    requires
        engine_move_spec(rules, s, m, now) is Ok,
    ensures
        engine_move_spec(rules, s, m, now) matches Ok(t) && {
            &&& rules.after_move(s.position, m) == Ok::<Seq<char>, ChessFault>(t.position)
            &&& t.history.len() == s.history.len() + 1
            &&& t.history.last().chess_move == m
            &&& t.history.last().fen_before == s.position
            &&& t.history.last().fen_after == t.position
            &&& (rules.status_of(t.position) matches Ok(st) && st.game_over) ==> (t.status == SessionStatus::Completed
                && t.objective.status == ObjectiveStatus::Completed)
            &&& (rules.status_of(t.position) matches Ok(st) && !st.game_over) ==> (t.status == s.status && t.objective
                == s.objective)
        },
{
}

/// Records the engine's move.
pub fn apply_engine_move<R: ChessRulesEngine>(rules: &R, session: ChessSession, chess_move: &ChessMove, now: i64) -> (res: Result<ChessSession, SessionError>)
    requires
        session@.history.len() < u32::MAX,
    ensures
        session_result_view(res) == engine_move_spec(rules, session@, chess_move@, now),
{
    let mut session = session;
    let before = session.position.copied();
    let color = match rules.status(&before) {
        Ok(status) => status.side_to_move,
        Err(error) => return Err(SessionError::Chess(error)),
    };
    let after = match rules.apply_move(&before, chess_move) {
        Ok(after) => after,
        Err(error) => return Err(SessionError::Chess(error)),
    };
    let ghost old_history = session.history.deep_view();
    let record = MoveRecord {
        ply: session.history.len() as u32 + 1,
        chess_move: chess_move.copied(),
        color,
        fen_before: before.fen,
        fen_after: after.fen.clone(),
        played_at: now,
    };
    session.history.push(record);
    proof {
        assert(session.history.deep_view() =~= old_history.push(record@));
    }
    session.position = after;
    let over = match rules.status(&session.position) {
        Ok(status) => status.game_over,
        Err(error) => return Err(SessionError::Chess(error)),
    };
    if over {
        session.status = SessionStatus::Completed;
        session.objective = ObjectiveEvaluation::completed();
    }
    Ok(session)
}

/// How many history entries end in a position with the given repetition key.
pub open spec fn repeat_count(history: Seq<RecordView>, key: Seq<char>) -> nat
    decreases history.len(),
{
    if history.len() == 0 {
        0
    } else {
        repeat_count(history.drop_last(), key) + if repetition_key_spec(history.last().fen_after) == Some(key) {
            1nat
        } else {
            0nat
        }
    }
}

/// A draw can be claimed: fifty moves without progress, or the current position
/// reached for the third time (the starting position counting once).
pub open spec fn claimable_draw_spec(s: SessionView) -> bool {
    ||| (halfmove_clock_spec(s.position) matches Some(clock) && clock >= 100)
    ||| (repetition_key_spec(s.position) matches Some(key) && (if repetition_key_spec(s.exercise.initial_position)
        == Some(key) {
        1nat
    } else {
        0nat
    }) + repeat_count(s.history, key) >= 3)
}

/// Whether the session's position allows claiming a draw.
pub fn is_claimable_draw(session: &ChessSession) -> (res: bool)
    ensures
        res == claimable_draw_spec(session@),
{
    if session.position.is_fifty_move_draw() {
        return true;
    }
    let current_key = match session.position.repetition_key() {
        Some(key) => key,
        None => return false,
    };
    let initial_matches: usize = match session.exercise.initial_position.repetition_key() {
        Some(key) => if key == current_key {
            1
        } else {
            0
        },
        None => 0,
    };
    let ghost history = session.history.deep_view();
    let mut repeated: usize = 0;
    let mut i: usize = 0;
    proof {
        assert(history.take(0) =~= Seq::<RecordView>::empty());
    }
    while i < session.history.len()
        invariant
            i <= session.history.len(),
            history == session.history.deep_view(),
            repeated == repeat_count(history.take(i as int), current_key@),
            repeated <= i,
        decreases session.history.len() - i,
    {
        proof {
            assert(history.take(i + 1).drop_last() =~= history.take(i as int));
        }
        let same = match repetition_key(session.history[i].fen_after.as_str()) {
            Some(key) => key == current_key,
            None => false,
        };
        if same {
            repeated = repeated + 1;
        }
        i = i + 1;
    }
    proof {
        assert(history.take(i as int) =~= history);
    }
    initial_matches as u128 + repeated as u128 >= 3
}

/// What closing a played move does: a full game that can be claimed drawn completes,
/// and the session is stamped at `now`.
pub open spec fn finish_move_spec(s: SessionView, now: i64) -> SessionView {
    let settled = if s.status == SessionStatus::InProgress && s.exercise.objective == ObjectiveView::PlayFullGame
        && claimable_draw_spec(s) {
        SessionView {
            status: SessionStatus::Completed,
            objective: crate::exercise::EvaluationView { message_key: "draw_completed"@, ..achieved() },
            ..s
        }
    } else {
        s
    };
    with_duration(SessionView { updated_at: now, ..settled }, now)
}

/// Settles a claimable draw of a full game and stamps the session.
pub fn finish_move(session: ChessSession, now: i64) -> (res: ChessSession)
    ensures
        res@ == finish_move_spec(session@, now),
{
    let mut session = session;
    let full_game = match session.exercise.objective {
        ObjectiveSpec::PlayFullGame => true,
        _ => false,
    };
    if session.status == SessionStatus::InProgress && full_game && is_claimable_draw(&session) {
        session.status = SessionStatus::Completed;
        session.objective = ObjectiveEvaluation::completed();
        session.objective.message_key = String::from_str("draw_completed");
    }
    session.updated_at = now;
    update_duration(&mut session, now);
    session
}

/// The reply to a move that was played: the position, the verdict, the engine's
/// answer and, while the session goes on, the legal moves.
pub fn move_result<R: ChessRulesEngine>(rules: &R, session: ChessSession, engine_move: Option<ChessMove>) -> (res: Result<PlayMoveResult, SessionError>)
    ensures
        res matches Ok(r) ==> {
            &&& r.valid
            &&& r.position@ == session@.position
            &&& r.status == session.status
            &&& r.feedback.feedback_type == (if session.status == SessionStatus::Failed {
                FeedbackType::Incorrect
            } else {
                FeedbackType::Correct
            })
            &&& r.feedback.message_key@ == session.objective.message_key@
            &&& r.feedback.variables@.len() == 0
            &&& r.objective@ == session@.objective
            &&& r.metrics == session.metrics
            &&& r.engine_move == engine_move
            &&& (if session.status == SessionStatus::InProgress {
                rules.legal_moves_of(session@.position) == Ok::<Seq<MoveView>, ChessFault>(r.legal_moves.deep_view())
            } else {
                r.legal_moves@.len() == 0
            })
        },
        res matches Err(e) ==> session.status == SessionStatus::InProgress && (rules.legal_moves_of(session@.position) matches Err(f) && e@ == SessionFault::Chess(f)),
        session.status == SessionStatus::InProgress ==> (res is Ok <==> rules.legal_moves_of(session@.position) is Ok),
        session.status != SessionStatus::InProgress ==> res is Ok,
{
    let legal_moves = if session.status == SessionStatus::InProgress {
        match rules.legal_moves(&session.position) {
            Ok(moves) => moves,
            Err(error) => return Err(SessionError::Chess(error)),
        }
    } else {
        Vec::new()
    };
    let feedback_type = if session.status == SessionStatus::Failed {
        FeedbackType::Incorrect
    } else {
        FeedbackType::Correct
    };
    let reply = feedback(feedback_type, session.objective.message_key.as_str());
    Ok(
        PlayMoveResult {
            valid: true,
            position: session.position,
            status: session.status,
            feedback: reply,
            objective: session.objective,
            metrics: session.metrics,
            legal_moves,
            engine_move,
        },
    )
}

/// The reply to an illegal move: the unchanged position and its legal moves.
pub fn rejected_result<R: ChessRulesEngine>(rules: &R, session: ChessSession) -> (res: Result<PlayMoveResult, SessionError>)
    ensures
        res matches Ok(r) ==> {
            &&& !r.valid
            &&& r.position@ == session@.position
            &&& r.status == session.status
            &&& r.feedback.feedback_type == FeedbackType::Incorrect
            &&& r.feedback.message_key@ == "illegal_move"@
            &&& r.feedback.variables@.len() == 0
            &&& r.objective@ == session@.objective
            &&& r.metrics == session.metrics
            &&& r.engine_move is None
            &&& rules.legal_moves_of(session@.position) == Ok::<Seq<MoveView>, ChessFault>(r.legal_moves.deep_view())
        },
        res matches Err(e) ==> rules.legal_moves_of(session@.position) matches Err(f) && e@ == SessionFault::Chess(f),
        res is Ok <==> rules.legal_moves_of(session@.position) is Ok,
{
    let legal_moves = match rules.legal_moves(&session.position) {
        Ok(moves) => moves,
        Err(error) => return Err(SessionError::Chess(error)),
    };
    Ok(
        PlayMoveResult {
            valid: false,
            position: session.position,
            status: session.status,
            feedback: feedback(FeedbackType::Incorrect, "illegal_move"),
            objective: session.objective,
            metrics: session.metrics,
            legal_moves,
            engine_move: None,
        },
    )
}

/// The reply to a played move, as `move_result` gives it for a session.
pub open spec fn played_reply<R: ChessRulesEngine>(rules: &R, s: SessionView, r: PlayMoveResult, engine_move: Option<MoveView>) -> bool {
    &&& r.valid
    &&& r.position@ == s.position
    &&& r.status == s.status
    &&& r.feedback.feedback_type == (if s.status == SessionStatus::Failed {
        FeedbackType::Incorrect
    } else {
        FeedbackType::Correct
    })
    &&& r.feedback.message_key@ == s.objective.message_key
    &&& r.feedback.variables@.len() == 0
    &&& r.objective@ == s.objective
    &&& r.metrics == s.metrics
    &&& (match r.engine_move {
        Some(m) => Some(m@),
        None => None,
    }) == engine_move
    &&& (if s.status == SessionStatus::InProgress {
        rules.legal_moves_of(s.position) == Ok::<Seq<MoveView>, ChessFault>(r.legal_moves.deep_view())
    } else {
        r.legal_moves@.len() == 0
    })
}

/// The reply, or its error, to a played move: it fails only when the session goes on
/// and its legal moves cannot be listed.
pub open spec fn reply_ok<R: ChessRulesEngine>(rules: &R, s: SessionView, r: Result<PlayMoveResult, SessionError>, engine_move: Option<MoveView>) -> bool {
    match r {
        Ok(reply) => played_reply(rules, s, reply, engine_move) && !(s.status == SessionStatus::InProgress
            && rules.legal_moves_of(s.position) is Err),
        Err(e) => s.status == SessionStatus::InProgress && (rules.legal_moves_of(s.position) matches Err(f) && e@
            == SessionFault::Chess(f)),
    }
}

/// The reply, or its error, to an illegal move.
pub open spec fn rejected_reply_ok<R: ChessRulesEngine>(rules: &R, s: SessionView, r: Result<PlayMoveResult, SessionError>) -> bool {
    match r {
        Ok(reply) => {
            &&& !reply.valid
            &&& reply.position@ == s.position
            &&& reply.status == s.status
            &&& reply.feedback.feedback_type == FeedbackType::Incorrect
            &&& reply.feedback.message_key@ == "illegal_move"@
            &&& reply.feedback.variables@.len() == 0
            &&& reply.objective@ == s.objective
            &&& reply.metrics == s.metrics
            &&& reply.engine_move is None
            &&& rules.legal_moves_of(s.position) == Ok::<Seq<MoveView>, ChessFault>(reply.legal_moves.deep_view())
        },
        Err(e) => rules.legal_moves_of(s.position) matches Err(f) && e@ == SessionFault::Chess(f),
    }
}

/// What comes after the player's move: store the session and send the reply (or its
/// error), or first ask the engine for a move in a position at a level.
pub enum PlayAction {
    Finish(ChessSession, Result<PlayMoveResult, SessionError>),
    AskEngine(ChessSession, Position, u8),
}

/// Whether the engine is asked after a played move: only while the session goes on.
pub open spec fn engine_asked<R: ChessRulesEngine>(rules: &R, t: SessionView) -> Result<Option<(Seq<char>, u8)>, SessionFault> {
    if t.status == SessionStatus::InProgress {
        engine_request_spec(rules, t)
    } else {
        Ok(None)
    }
}

/// The step of the player's move: the move is checked and played (or refused as
/// illegal); then either the engine is asked for its answer, or the move is closed
/// and the session to store and its reply are given.
pub fn play_move_step<R: ChessRulesEngine>(rules: &R, session: ChessSession, chess_move: &ChessMove, now: i64) -> (res: Result<PlayAction, SessionError>)
    requires
        room_for_move(session@),
    ensures
        match begin_move_spec(rules, session@, chess_move@, now) {
            Err(f) => res matches Err(e) && e@ == f,
            Ok(StepView::Rejected(t)) => res matches Ok(PlayAction::Finish(u, r)) && u@ == t && rejected_reply_ok(rules, t, r),
            Ok(StepView::Accepted(t)) => match engine_asked(rules, t) {
                Err(f) => res matches Err(e) && e@ == f,
                Ok(Some((p, level))) => res matches Ok(PlayAction::AskEngine(u, q, l)) && u@ == t && q@ == p && l == level,
                Ok(None) => res matches Ok(PlayAction::Finish(u, r)) && u@ == finish_move_spec(t, now) && reply_ok(rules, u@, r, None),
            },
        },
{
    match begin_move(rules, session, chess_move, now) {
        Err(error) => Err(error),
        Ok(MoveStep::Rejected(session)) => {
            let reply = rejected_result(rules, session.copied());
            Ok(PlayAction::Finish(session, reply))
        },
        Ok(MoveStep::Accepted(session)) => {
            if session.status == SessionStatus::InProgress {
                match engine_request(rules, &session) {
                    Err(error) => return Err(error),
                    Ok(Some((position, level))) => return Ok(PlayAction::AskEngine(session, position, level)),
                    Ok(None) => {},
                }
            }
            let session = finish_move(session, now);
            let reply = move_result(rules, session.copied(), None);
            Ok(PlayAction::Finish(session, reply))
        },
    }
}

/// The step after the engine answered: its move is recorded, the move is closed, and
/// the session to store and its reply, which carries the engine's move, are given.
pub fn engine_answered<R: ChessRulesEngine>(rules: &R, session: ChessSession, answer: &ChessMove, now: i64) -> (res: Result<(ChessSession, Result<PlayMoveResult, SessionError>), SessionError>)
    requires
        session@.history.len() < u32::MAX,
    ensures
        match engine_move_spec(rules, session@, answer@, now) {
            Err(f) => res matches Err(e) && e@ == f,
            Ok(t) => res matches Ok((u, r)) && u@ == finish_move_spec(t, now) && reply_ok(rules, u@, r, Some(answer@)),
        },
{
    let session = match apply_engine_move(rules, session, answer, now) {
        Ok(session) => session,
        Err(error) => return Err(error),
    };
    let session = finish_move(session, now);
    let reply = move_result(rules, session.copied(), Some(answer.copied()));
    Ok((session, reply))
}

/// What resetting a session gives: back to the exercise's start, counters cleared,
/// created anew at `now`.
pub open spec fn reset_spec(s: SessionView, now: i64) -> SessionView {
    SessionView {
        position: s.exercise.initial_position,
        status: SessionStatus::Created,
        history: Seq::empty(),
        metrics: zero_metrics(),
        objective: progressing(0, 1),
        hint_level: 0,
        created_at: now,
        updated_at: now,
        ..s
    }
}

/// Puts a session back to the start of its exercise.
pub fn reset_session(session: ChessSession, now: i64) -> (res: ChessSession)
    ensures
        res@ == reset_spec(session@, now),
{
    let mut session = session;
    session.position = session.exercise.initial_position.copied();
    session.status = SessionStatus::Created;
    session.history = Vec::new();
    session.metrics = SessionMetrics::default();
    session.objective = ObjectiveEvaluation::in_progress(0, 1);
    session.hint_level = 0;
    session.created_at = now;
    session.updated_at = session.created_at;
    proof {
        assert(session.history.deep_view() =~= Seq::<RecordView>::empty());
    }
    session
}

/// A loaded session, or `NotFound`.
pub fn found(session: Option<ChessSession>) -> (res: Result<ChessSession, SessionError>)
    ensures
        match session {
            Some(s) => res matches Ok(r) && r@ == s@,
            None => res matches Err(SessionError::NotFound),
        },
{
    match session {
        Some(session) => Ok(session),
        None => Err(SessionError::NotFound),
    }
}

/// The reply to a delete: done when the session existed, `NotFound` otherwise.
pub fn deleted(existed: bool) -> (res: Result<(), SessionError>)
    ensures
        existed <==> res is Ok,
        !existed ==> res matches Err(SessionError::NotFound),
{
    if existed {
        Ok(())
    } else {
        Err(SessionError::NotFound)
    }
}

/// The first legal move of a list, if any.
pub open spec fn first_move(legal: Seq<MoveView>) -> Option<MoveView> {
    if legal.len() > 0 {
        Some(legal[0])
    } else {
        None
    }
}

/// The first of the moves that moves the given piece (to the target, if one is given).
pub open spec fn first_piece_move<R: ChessRulesEngine>(rules: &R, fen: Seq<char>, legal: Seq<MoveView>, piece: crate::board::Piece, target: Option<Seq<char>>) -> Option<MoveView>
    decreases legal.len(),
{
    if legal.len() == 0 {
        None
    } else if (rules.piece_at_of(fen, legal[0].from) matches Ok(Some(found)) && found.piece == piece) && (target matches Some(t) ==> legal[0].to == t) {
        Some(legal[0])
    } else {
        first_piece_move(rules, fen, legal.drop_first(), piece, target)
    }
}

/// The first move that moves the piece to the target is found whenever some legal
/// move does: it moves a piece of that kind, lands on the target, and is legal.
pub proof fn lemma_piece_move_found<R: ChessRulesEngine>(rules: &R, fen: Seq<char>, legal: Seq<MoveView>, piece: crate::board::Piece, target: Option<Seq<char>>, i: int)
    requires
        0 <= i < legal.len(),
        rules.piece_at_of(fen, legal[i].from) matches Ok(Some(found)) && found.piece == piece,
        target matches Some(t) ==> legal[i].to == t,
    ensures
        first_piece_move(rules, fen, legal, piece, target) matches Some(m) && legal.contains(m) && (rules.piece_at_of(
            fen,
            m.from,
        ) matches Ok(Some(found)) && found.piece == piece) && (target matches Some(t) ==> m.to == t),
    decreases legal.len(),
{
    let first = legal[0];
    if !((rules.piece_at_of(fen, first.from) matches Ok(Some(found)) && found.piece == piece) && (target matches Some(
        t,
    ) ==> first.to == t)) {
        lemma_piece_move_found(rules, fen, legal.drop_first(), piece, target, i - 1);
        let m = first_piece_move(rules, fen, legal.drop_first(), piece, target)->0;
        let j = choose|j: int| 0 <= j < legal.drop_first().len() && legal.drop_first()[j] == m;
        assert(legal[j + 1] == m);
    } else {
        assert(legal[0] == first);
    }
}

/// A hint for a piece-moving objective suggests, whenever a legal move takes a piece
/// of the named kind to the target (any square when there is none), a legal move of
/// such a piece to that target, so that playing the hint completes the objective.
pub proof fn law_piece_hint_reaches_target<R: ChessRulesEngine>(
    rules: &R,
    s: SessionView,
    legal: Seq<MoveView>,
    suggested: Option<MoveView>,
    piece: crate::board::Piece,
    target: Option<Seq<char>>,
    i: int,
)
    requires
        s.exercise.objective == (ObjectiveView::MovePiece { piece, target }),
        suggestion_spec(rules, s, legal, suggested),
        0 <= i < legal.len(),
        rules.piece_at_of(s.position, legal[i].from) matches Ok(Some(found)) && found.piece == piece,
        target matches Some(t) ==> legal[i].to == t,
    ensures
        suggested matches Some(m) && legal.contains(m) && (rules.piece_at_of(s.position, m.from) matches Ok(Some(found))
            && found.piece == piece) && (target matches Some(t) ==> m.to == t),
{
    lemma_piece_move_found(rules, s.position, legal, piece, target, i);
}

/// What a suggestion for the session may be, given its legal moves: the objective's
/// move when it names one that can be read, else the first legal move; for other
/// objectives the engine's choice at level 3 (owed when every rules call of its search
/// succeeds and there is a legal move), else the first legal move.
pub open spec fn suggestion_spec<R: ChessRulesEngine>(rules: &R, s: SessionView, legal: Seq<MoveView>, suggested: Option<MoveView>) -> bool {
    match s.exercise.objective {
        ObjectiveView::BestMove { uci } => suggested == (match from_uci_spec(uci) {
            Ok(m) => Some(m),
            Err(_) => first_move(legal),
        }),
        ObjectiveView::CompleteSequence { moves } => suggested == (if s.history.len() < moves.len() && from_uci_spec(moves[s.history.len() as int]) is Ok {
            Some(from_uci_spec(moves[s.history.len() as int])->Ok_0)
        } else {
            first_move(legal)
        }),
        ObjectiveView::MovePiece { piece, target } => suggested == (match first_piece_move(rules, s.position, legal, piece, target) {
            Some(m) => Some(m),
            None => first_move(legal),
        }),
        _ => if choice_ok(rules, s.position, level_spec(3)) && legal.len() > 0 {
            suggested matches Some(m) && engine_choice(rules, s.position, level_spec(3), m)
        } else {
            suggested == first_move(legal) || (suggested matches Some(m) && engine_choice(rules, s.position, level_spec(3), m))
        },
    }
}

/// Suggests a move for the session's position.
fn suggested_move<R: ChessRulesEngine>(rules: &R, engine: &crate::engine::SimpleEngine<R>, session: &ChessSession) -> (res: Result<Option<ChessMove>, SessionError>)
    requires
        engine.rules() == *rules,
    ensures
        res matches Err(e) ==> rules.legal_moves_of(session@.position) matches Err(f) && e@ == SessionFault::Chess(f),
        res is Ok <==> rules.legal_moves_of(session@.position) is Ok,
        res matches Ok(sugg) ==> (rules.legal_moves_of(session@.position) matches Ok(legal) && suggestion_spec(rules, session@, legal, match sugg { Some(m) => Some(m@), None => None })),
{
    let legal = match rules.legal_moves(&session.position) {
        Ok(moves) => moves,
        Err(error) => return Err(SessionError::Chess(error)),
    };
    let ghost legal_view = legal.deep_view();
    let first = if legal.len() > 0 { Some(legal[0].copied()) } else { None };
    let suggested = match &session.exercise.objective {
        ObjectiveSpec::BestMove { uci } => match ChessMove::from_uci(uci.as_str()) {
            Ok(m) => Some(m),
            Err(_) => None,
        },
        ObjectiveSpec::CompleteSequence { moves } => {
            if session.history.len() < moves.len() {
                proof {
                    assert(moves.deep_view()[session.history.len() as int] == moves@[session.history.len() as int]@);
                }
                match ChessMove::from_uci(moves[session.history.len()].as_str()) {
                    Ok(m) => Some(m),
                    Err(_) => None,
                }
            } else {
                None
            }
        },
        ObjectiveSpec::MovePiece { piece, target } => {
            let mut found: Option<ChessMove> = None;
            let mut i: usize = 0;
            proof {
                assert(legal_view.skip(0) =~= legal_view);
            }
            while i < legal.len()
                invariant_except_break
                    found is None,
                invariant
                    i <= legal.len(),
                    legal_view == legal.deep_view(),
                    first_piece_move(rules, session@.position, legal_view, *piece, crate::exercise::text_view(*target))
                        == first_piece_move(rules, session@.position, legal_view.skip(i as int), *piece, crate::exercise::text_view(*target)),
                ensures
                    found matches Some(f) ==> Some(f@) == first_piece_move(rules, session@.position, legal_view, *piece, crate::exercise::text_view(*target)),
                    found is None ==> first_piece_move(rules, session@.position, legal_view, *piece, crate::exercise::text_view(*target)) is None,
                decreases legal.len() - i,
            {
                let moves_piece = match rules.piece_at(&session.position, &legal[i].from) {
                    Ok(Some(on)) => on.piece == *piece,
                    _ => false,
                };
                let on_target = match target {
                    Some(t) => legal[i].to.as_str().to_owned() == *t,
                    None => true,
                };
                proof {
                    assert(legal_view.skip(i as int)[0] == legal@[i as int]@);
                    assert(legal_view.skip(i as int).drop_first() =~= legal_view.skip(i + 1));
                }
                if moves_piece && on_target {
                    found = Some(legal[i].copied());
                    break;
                }
                i = i + 1;
                proof {
                    if i == legal.len() {
                        assert(legal_view.skip(i as int) =~= Seq::<MoveView>::empty());
                    }
                }
            }
            found
        },
        _ => match engine.choose_move(&session.position, crate::engine::EngineDifficulty::educational_level(3)) {
            Ok(m) => Some(m),
            Err(_) => None,
        },
    };
    match suggested {
        Some(m) => Ok(Some(m)),
        None => Ok(first),
    }
}

/// The destinations of the legal moves that leave the suggested move's square (all
/// destinations when there is no suggestion).
pub open spec fn candidate_squares(legal: Seq<MoveView>, suggested: Option<MoveView>) -> Seq<Seq<char>>
    decreases legal.len(),
{
    if legal.len() == 0 {
        Seq::empty()
    } else {
        let rest = candidate_squares(legal.drop_last(), suggested);
        if suggested matches Some(s) && legal.last().from != s.from {
            rest
        } else {
            rest.push(legal.last().to)
        }
    }
}

/// The session's room for one more hint.
pub open spec fn room_for_hint(s: SessionView) -> bool {
    s.hint_level < u8::MAX && s.metrics.hints_used < u32::MAX
}

/// The hint level after one more hint.
pub open spec fn next_hint_level(level: u8) -> u8 {
    if level + 1 < 3 {
        (level + 1) as u8
    } else {
        3
    }
}

/// The hint shown at a level for a suggestion.
pub open spec fn hint_spec(level: u8, suggested: Option<MoveView>, legal: Seq<MoveView>) -> crate::exercise::HintView {
    let square = match suggested {
        Some(m) => Some(m.from),
        None => None,
    };
    if level == 1 {
        crate::exercise::HintView { level: 1, hint_type: "piece"@, square, squares: Seq::empty(), chess_move: None }
    } else if level == 2 {
        crate::exercise::HintView {
            level: 2,
            hint_type: "candidate_squares"@,
            square,
            squares: candidate_squares(legal, suggested),
            chess_move: None,
        }
    } else {
        crate::exercise::HintView { level: 3, hint_type: "move"@, square: None, squares: Seq::empty(), chess_move: suggested }
    }
}

/// The session after a hint at `now`.
pub open spec fn hinted_session(s: SessionView, now: i64) -> SessionView {
    with_duration(
        SessionView {
            hint_level: next_hint_level(s.hint_level),
            metrics: SessionMetrics { hints_used: (s.metrics.hints_used + 1) as u32, ..s.metrics },
            updated_at: now,
            ..s
        },
        now,
    )
}

/// Gives the next hint: the session's hint level rises (up to three), the hint is
/// counted, and the hint shows the suggested move's square, then its candidate
/// destinations, then the move itself.
pub fn hint_step<R: ChessRulesEngine>(rules: &R, engine: &crate::engine::SimpleEngine<R>, session: ChessSession, now: i64) -> (res: Result<(ChessSession, HintResult), SessionError>)
    requires
        engine.rules() == *rules,
        room_for_hint(session@),
    ensures
        (session.status == SessionStatus::Completed || session.status == SessionStatus::Abandoned) ==> res matches Err(SessionError::NotPlayable),
        !(session.status == SessionStatus::Completed || session.status == SessionStatus::Abandoned) ==> {
            &&& (res is Ok <==> rules.legal_moves_of(session@.position) is Ok)
            &&& (res matches Err(e) ==> (rules.legal_moves_of(session@.position) matches Err(f) && e@ == SessionFault::Chess(f)))
        },
        res matches Ok((after, reply)) ==> {
            &&& after@ == hinted_session(session@, now)
            &&& reply.metrics == after.metrics
            &&& (rules.legal_moves_of(session@.position) matches Ok(legal) && exists|sugg: Option<MoveView>| suggestion_spec(rules, session@, legal, sugg) && reply.hint@ == hint_spec(next_hint_level(session.hint_level), sugg, legal))
        },
{
    let mut session = session;
    if session.status == SessionStatus::Completed || session.status == SessionStatus::Abandoned {
        return Err(SessionError::NotPlayable);
    }
    let ghost start = session@;
    let raised: u8 = session.hint_level + 1;
    session.hint_level = if raised < 3 { raised } else { 3 };
    session.metrics.hints_used = session.metrics.hints_used + 1;
    let suggested = match suggested_move(rules, engine, &session) {
        Ok(suggested) => suggested,
        Err(error) => return Err(error),
    };
    let ghost sugg = match &suggested {
        Some(m) => Some(m@),
        None => None::<MoveView>,
    };
    let ghost legal = rules.legal_moves_of(start.position)->Ok_0;
    let square = match &suggested {
        Some(value) => Some(value.from.as_str().to_owned()),
        None => None,
    };
    let hint = if session.hint_level == 1 {
        StructuredHint { level: 1, hint_type: String::from_str("piece"), square, squares: Vec::new(), chess_move: None }
    } else if session.hint_level == 2 {
        let all = match rules.legal_moves(&session.position) {
            Ok(moves) => moves,
            Err(error) => return Err(SessionError::Chess(error)),
        };
        let mut squares: Vec<String> = Vec::new();
        let mut i: usize = 0;
        proof {
            assert(all.deep_view().take(0) =~= Seq::<MoveView>::empty());
        }
        while i < all.len()
            invariant
                i <= all.len(),
                squares.deep_view() == candidate_squares(all.deep_view().take(i as int), sugg),
                sugg == (match suggested { Some(m) => Some(m@), None => None::<MoveView> }),
            decreases all.len() - i,
        {
            let keep = match &suggested {
                Some(chosen) => all[i].from.as_str().to_owned() == chosen.from.as_str().to_owned(),
                None => true,
            };
            let ghost before = squares.deep_view();
            proof {
                assert(all.deep_view().take(i + 1).drop_last() =~= all.deep_view().take(i as int));
                assert(all.deep_view().take(i + 1).last() == all@[i as int]@);
            }
            if keep {
                squares.push(all[i].to.as_str().to_owned());
                proof {
                    assert(squares.deep_view() =~= before.push(all@[i as int].to@));
                }
            }
            i = i + 1;
        }
        proof {
            assert(all.deep_view().take(i as int) =~= all.deep_view());
        }
        StructuredHint {
            level: 2,
            hint_type: String::from_str("candidate_squares"),
            square,
            squares,
            chess_move: None,
        }
    } else {
        let empty: Vec<String> = Vec::new();
        proof {
            assert(empty.deep_view() =~= Seq::<Seq<char>>::empty());
        }
        StructuredHint { level: 3, hint_type: String::from_str("move"), square: None, squares: empty, chess_move: suggested }
    };
    proof {
        if session.hint_level == 1 {
            assert(hint.squares.deep_view() =~= Seq::<Seq<char>>::empty());
        }
        assert(hint@ == hint_spec(next_hint_level(start.hint_level), sugg, legal));
    }
    session.updated_at = now;
    update_duration(&mut session, now);
    let metrics = session.metrics;
    Ok((session, HintResult { hint, metrics }))
}

/// Resetting a session gives the state a new session of the same exercise starts in,
/// created at the time of the reset.
pub proof fn law_reset_is_a_fresh_start(s: SessionView, now: i64)
    requires
        s.player_color == s.exercise.player_color,
    ensures
        reset_spec(s, now) == new_session_spec(s.exercise, s.id, now),
{
}

/// An illegal move changes nothing but the counters: one more move, one more
/// incorrect move, and the time stamps.
pub proof fn law_illegal_move_only_counts<R: ChessRulesEngine>(rules: &R, s: SessionView, m: MoveView, now: i64)
    requires
        room_for_move(s),
        begin_move_spec(rules, s, m, now) matches Ok(StepView::Rejected(_)),
    ensures
        begin_move_spec(rules, s, m, now) matches Ok(StepView::Rejected(t)) && {
            &&& rules.after_move(s.position, m) matches Err(ChessFault::IllegalMove(_))
            &&& t.position == s.position
            &&& t.history == s.history
            &&& t.status == s.status
            &&& t.objective == s.objective
            &&& t.hint_level == s.hint_level
            &&& t.metrics.moves == s.metrics.moves + 1
            &&& t.metrics.incorrect_moves == s.metrics.incorrect_moves + 1
            &&& t.metrics.correct_moves == s.metrics.correct_moves
            &&& t.metrics.hints_used == s.metrics.hints_used
        },
{
}

/// A legal move is recorded once, at the end of the history, and judged either right
/// or wrong; the session goes on, completes or fails.
pub proof fn law_played_move_is_recorded<R: ChessRulesEngine>(rules: &R, s: SessionView, m: MoveView, now: i64)
    requires
        room_for_move(s),
        begin_move_spec(rules, s, m, now) matches Ok(StepView::Accepted(_)),
    ensures
        begin_move_spec(rules, s, m, now) matches Ok(StepView::Accepted(t)) && {
            &&& rules.after_move(s.position, m) == Ok::<Seq<char>, ChessFault>(t.position)
            &&& t.history.len() == s.history.len() + 1
            &&& t.history.take(s.history.len() as int) == s.history
            &&& t.history.last().chess_move == m
            &&& t.history.last().ply == s.history.len() + 1
            &&& t.history.last().fen_before == s.position
            &&& t.history.last().fen_after == t.position
            &&& t.metrics.moves == s.metrics.moves + 1
            &&& t.metrics.correct_moves + t.metrics.incorrect_moves == s.metrics.correct_moves + s.metrics.incorrect_moves + 1
            &&& (t.status == SessionStatus::InProgress || t.status == SessionStatus::Completed || t.status == SessionStatus::Failed)
            &&& (t.status == SessionStatus::Failed <==> t.metrics.incorrect_moves == s.metrics.incorrect_moves + 1)
        },
{
    let t = begin_move_spec(rules, s, m, now)->Ok_0->Accepted_0;
    assert(t.history.take(s.history.len() as int) =~= s.history);
}

/// A session that can still be played refuses the player's move once its history has
/// reached the exercise's move limit, whatever the move.
pub proof fn law_move_limit_is_enforced<R: ChessRulesEngine>(rules: &R, s: SessionView, m: MoveView, now: i64)
    requires
        !is_finished(s.status),
        s.history.len() >= s.exercise.rules.move_limit,
    ensures
        begin_move_spec(rules, s, m, now) == Err::<StepView, SessionFault>(SessionFault::MoveLimitReached),
{
}

/// The session's move counter is the sum of its verdict counters.
pub open spec fn counters_add_up(s: SessionView) -> bool {
    s.metrics.moves == s.metrics.correct_moves + s.metrics.incorrect_moves
}

/// Something that happens to a stored session, with the time it happens at.
pub ghost enum SessionEvent {
    PlayerMove(MoveView, i64),
    EngineMove(MoveView, i64),
    Close(i64),
    Hint(i64),
    Reset(i64),
}

/// The session after an event; an event whose step fails leaves it as it was.
pub open spec fn after_event<R: ChessRulesEngine>(rules: &R, s: SessionView, e: SessionEvent) -> SessionView {
    match e {
        SessionEvent::PlayerMove(m, now) => if room_for_move(s) {
            match begin_move_spec(rules, s, m, now) {
                Ok(StepView::Rejected(t)) => t,
                Ok(StepView::Accepted(t)) => t,
                Err(_) => s,
            }
        } else {
            s
        },
        SessionEvent::EngineMove(m, now) => if s.history.len() < u32::MAX {
            match engine_move_spec(rules, s, m, now) {
                Ok(t) => t,
                Err(_) => s,
            }
        } else {
            s
        },
        SessionEvent::Close(now) => finish_move_spec(s, now),
        SessionEvent::Hint(now) => if room_for_hint(s) && !(s.status == SessionStatus::Completed || s.status
            == SessionStatus::Abandoned) && rules.legal_moves_of(s.position) is Ok {
            hinted_session(s, now)
        } else {
            s
        },
        SessionEvent::Reset(now) => reset_spec(s, now),
    }
}

/// The session after a sequence of events, in order.
pub open spec fn replay<R: ChessRulesEngine>(rules: &R, s: SessionView, events: Seq<SessionEvent>) -> SessionView
    decreases events.len(),
{
    if events.len() == 0 {
        s
    } else {
        after_event(rules, replay(rules, s, events.drop_last()), events.last())
    }
}

/// Every step keeps the move counter equal to the sum of the verdict counters.
pub proof fn lemma_event_keeps_counters<R: ChessRulesEngine>(rules: &R, s: SessionView, e: SessionEvent)
    requires
        counters_add_up(s),
    ensures
        counters_add_up(after_event(rules, s, e)),
{
}

/// A session created from an exercise and then taken through any sequence of player
/// moves, engine moves, closings, hints and resets has always counted as many moves as
/// verdicts: `moves == correct_moves + incorrect_moves`.
pub proof fn law_move_counters_add_up<R: ChessRulesEngine>(
    rules: &R,
    exercise: crate::exercise::ExerciseView,
    id: u128,
    created: i64,
    events: Seq<SessionEvent>,
)
    ensures
        counters_add_up(replay(rules, new_session_spec(exercise, id, created), events)),
    decreases events.len(),
{
    if events.len() > 0 {
        law_move_counters_add_up(rules, exercise, id, created, events.drop_last());
        lemma_event_keeps_counters(rules, replay(rules, new_session_spec(exercise, id, created), events.drop_last()), events.last());
    }
}

/// Once a move finishes the exercise, closing the move keeps it finished and every
/// later move is refused as not playable.
pub proof fn law_finished_sessions_refuse_moves<R: ChessRulesEngine>(rules: &R, s: SessionView, m: MoveView, next: MoveView, t1: i64, t2: i64, t3: i64)
    requires
        begin_move_spec(rules, s, m, t1) matches Ok(StepView::Accepted(t)) && t.status != SessionStatus::InProgress,
    ensures
        begin_move_spec(rules, s, m, t1) matches Ok(StepView::Accepted(t)) && {
            &&& finish_move_spec(t, t2).status == t.status
            &&& begin_move_spec(rules, finish_move_spec(t, t2), next, t3) == Err::<StepView, SessionFault>(SessionFault::NotPlayable)
        },
{
}

/// Each hint raises the level by one until the move itself is shown, and is counted.
pub proof fn law_hints_rise_to_the_move(s: SessionView, now: i64)
    requires
        room_for_hint(s),
    ensures
        hinted_session(s, now).hint_level == (if s.hint_level < 2 { s.hint_level + 1 } else { 3 }),
        hinted_session(s, now).hint_level <= 3,
        hinted_session(s, now).metrics.hints_used == s.metrics.hints_used + 1,
        hinted_session(s, now).position == s.position,
        hinted_session(s, now).history == s.history,
        hinted_session(s, now).status == s.status,
{
}

} // verus!
