//! Evaluation of an exercise's objective after each move.
use vstd::prelude::*;

use crate::board::{square_spec, uci_text, ChessMove, Color, MoveView, Piece, Position, Square};
use crate::exercise::{
    achieved, failure, progressing, EvaluationView, ObjectiveEvaluation, ObjectiveSpec, ObjectiveStatus,
    ObjectiveView,
};
use crate::rules::ChessRulesEngine;

verus! {

/// Everything an objective is judged on: the move, the positions around it and the
/// moves played so far.
pub struct ObjectiveContext<'a> {
    pub objective: &'a ObjectiveSpec,
    pub before: &'a Position,
    pub after: &'a Position,
    pub chess_move: &'a ChessMove,
    pub history: &'a [ChessMove],
    pub player_color: Color,
}

/// Judges a move against an objective.
pub trait ExerciseValidator: Send + Sync {
    fn validate<R: ChessRulesEngine>(&self, rules: &R, context: &ObjectiveContext<'_>) -> ObjectiveEvaluation;
}

/// The objective evaluation that ships with the library.
#[derive(Debug, Default)]
pub struct DefaultObjectiveEvaluator;

/// An unfinished objective fails once the moves played reach its limit.
pub open spec fn limit_spec(evaluation: EvaluationView, played: nat, max_moves: Option<u16>) -> EvaluationView {
    if evaluation.status != ObjectiveStatus::Completed && (max_moves matches Some(limit) && played >= limit) {
        failure("move_limit_reached"@)
    } else {
        evaluation
    }
}

/// The piece of the given kind stands on the square the move leaves.
pub open spec fn moved_piece_is<R: ChessRulesEngine>(rules: &R, before: Seq<char>, m: MoveView, expected: Piece) -> bool {
    rules.piece_at_of(before, m.from) matches Ok(Some(found)) && found.piece == expected
}

/// `played` is a prefix of `moves`.
pub open spec fn is_prefix_of(played: Seq<Seq<char>>, moves: Seq<Seq<char>>) -> bool {
    played.len() <= moves.len() && forall|i: int| 0 <= i < played.len() ==> #[trigger] played[i] == moves[i]
}

/// The larger of a count and one.
pub open spec fn at_least_one(n: nat) -> nat {
    if n == 0 {
        1
    } else {
        n
    }
}

/// How the default evaluator judges a move.
pub open spec fn evaluation_spec<R: ChessRulesEngine>(
    rules: &R,
    objective: ObjectiveView,
    before: Seq<char>,
    after: Seq<char>,
    m: MoveView,
    history: Seq<MoveView>,
    player: Color,
) -> EvaluationView {
    match rules.status_of(after) {
        Err(_) => failure("position_validation_failed"@),
        Ok(status) => match objective {
            ObjectiveView::Checkmate { max_moves } => limit_spec(
                if status.checkmate {
                    achieved()
                } else {
                    progressing(1, 2)
                },
                history.len(),
                max_moves,
            ),
            ObjectiveView::Check => if status.in_check {
                achieved()
            } else {
                progressing(0, 1)
            },
            ObjectiveView::Capture { piece, within_moves } => {
                let completed = rules.piece_at_of(before, m.to) matches Ok(Some(captured)) && captured.color
                    != player && (piece matches Some(expected) ==> expected == captured.piece);
                limit_spec(
                    if completed {
                        achieved()
                    } else {
                        progressing(0, 1)
                    },
                    history.len(),
                    within_moves,
                )
            },
            ObjectiveView::MovePiece { piece, target } => if moved_piece_is(rules, before, m, piece) && (
            target matches Some(t) ==> t == m.to) {
                achieved()
            } else {
                progressing(0, 1)
            },
            ObjectiveView::ReachSquare { target } => if m.to == target {
                achieved()
            } else {
                progressing(0, 1)
            },
            ObjectiveView::Promote => if m.promotion is Some {
                achieved()
            } else {
                progressing(0, 1)
            },
            ObjectiveView::EscapeCheck => if (rules.status_of(before) matches Ok(s) && s.in_check)
                && !status.in_check {
                achieved()
            } else {
                progressing(0, 1)
            },
            ObjectiveView::WinMaterial => if rules.material_of(after, player) matches Ok(balance) && balance
                > 0 {
                achieved()
            } else {
                progressing(0, 1)
            },
            ObjectiveView::Survive { moves } => if history.len() >= moves && !status.checkmate {
                achieved()
            } else {
                progressing(history.len() as u64, at_least_one(moves as nat) as u64)
            },
            ObjectiveView::BestMove { uci } => if uci_text(m) == uci {
                achieved()
            } else {
                failure("better_move_available"@)
            },
            ObjectiveView::CompleteSequence { moves } => {
                let played = history.map_values(|h: MoveView| uci_text(h));
                if !is_prefix_of(played, moves) {
                    failure("sequence_mismatch"@)
                } else if played.len() == moves.len() {
                    achieved()
                } else {
                    progressing(played.len() as u64, at_least_one(moves.len()) as u64)
                }
            },
            ObjectiveView::PlayFullGame => if status.game_over {
                achieved()
            } else {
                progressing(0, 1)
            },
        },
    }
}

impl DefaultObjectiveEvaluator {
    fn moved_piece_matches<R: ChessRulesEngine>(rules: &R, context: &ObjectiveContext<'_>, expected: Piece) -> (res: bool)
        ensures
            res == moved_piece_is(rules, context.before@, context.chess_move@, expected),
    {
        match rules.piece_at(context.before, &context.chess_move.from) {
            Ok(Some(piece)) => piece.piece == expected,
            _ => false,
        }
    }

    fn failed_if_limit_reached(evaluation: ObjectiveEvaluation, history_len: usize, max_moves: Option<u16>) -> (res: ObjectiveEvaluation)
        ensures
            res@ == limit_spec(evaluation@, history_len as nat, max_moves),
    {
        let reached = match max_moves {
            Some(limit) => history_len >= limit as usize,
            None => false,
        };
        if evaluation.status != ObjectiveStatus::Completed && reached {
            ObjectiveEvaluation::failed("move_limit_reached")
        } else {
            evaluation
        }
    }

    /// Judges the move of the context against its objective.
    pub fn evaluate<R: ChessRulesEngine>(rules: &R, context: &ObjectiveContext<'_>) -> (res: ObjectiveEvaluation)
        ensures
            res@ == evaluation_spec(
                rules,
                context.objective@,
                context.before@,
                context.after@,
                context.chess_move@,
                context.history@.map_values(|h: ChessMove| h@),
                context.player_color,
            ),
    {
        let ghost history = context.history@.map_values(|h: ChessMove| h@);
        let status = match rules.status(context.after) {
            Ok(status) => status,
            Err(_) => return ObjectiveEvaluation::failed("position_validation_failed"),
        };
        match context.objective {
            ObjectiveSpec::Checkmate { max_moves } => Self::failed_if_limit_reached(
                if status.checkmate {
                    ObjectiveEvaluation::completed()
                } else {
                    ObjectiveEvaluation::in_progress(1, 2)
                },
                context.history.len(),
                *max_moves,
            ),
            ObjectiveSpec::Check => {
                if status.in_check {
                    ObjectiveEvaluation::completed()
                } else {
                    ObjectiveEvaluation::in_progress(0, 1)
                }
            },
            ObjectiveSpec::Capture { piece, within_moves } => {
                let completed = match rules.piece_at(context.before, &context.chess_move.to) {
                    Ok(Some(captured)) => captured.color != context.player_color && match piece {
                        Some(expected) => *expected == captured.piece,
                        None => true,
                    },
                    _ => false,
                };
                Self::failed_if_limit_reached(
                    if completed {
                        ObjectiveEvaluation::completed()
                    } else {
                        ObjectiveEvaluation::in_progress(0, 1)
                    },
                    context.history.len(),
                    *within_moves,
                )
            },
            ObjectiveSpec::MovePiece { piece, target } => {
                let on_target = match target {
                    Some(target) => *target == context.chess_move.to.as_str().to_owned(),
                    None => true,
                };
                if Self::moved_piece_matches(rules, context, *piece) && on_target {
                    ObjectiveEvaluation::completed()
                } else {
                    ObjectiveEvaluation::in_progress(0, 1)
                }
            },
            ObjectiveSpec::ReachSquare { target } => {
                if context.chess_move.to.as_str().to_owned() == *target {
                    ObjectiveEvaluation::completed()
                } else {
                    ObjectiveEvaluation::in_progress(0, 1)
                }
            },
            ObjectiveSpec::Promote => {
                if context.chess_move.promotion.is_some() {
                    ObjectiveEvaluation::completed()
                } else {
                    ObjectiveEvaluation::in_progress(0, 1)
                }
            },
            ObjectiveSpec::EscapeCheck => {
                let was_in_check = match rules.status(context.before) {
                    Ok(before) => before.in_check,
                    Err(_) => false,
                };
                if was_in_check && !status.in_check {
                    ObjectiveEvaluation::completed()
                } else {
                    ObjectiveEvaluation::in_progress(0, 1)
                }
            },
            ObjectiveSpec::WinMaterial => {
                let winning = match rules.material_balance(context.after, context.player_color) {
                    Ok(balance) => balance > 0,
                    Err(_) => false,
                };
                if winning {
                    ObjectiveEvaluation::completed()
                } else {
                    ObjectiveEvaluation::in_progress(0, 1)
                }
            },
            ObjectiveSpec::Survive { moves } => {
                if context.history.len() >= *moves as usize && !status.checkmate {
                    ObjectiveEvaluation::completed()
                } else {
                    let total: u64 = if *moves == 0 { 1 } else { *moves as u64 };
                    ObjectiveEvaluation::in_progress(context.history.len() as u64, total)
                }
            },
            ObjectiveSpec::BestMove { uci } => {
                if context.chess_move.to_uci() == *uci {
                    ObjectiveEvaluation::completed()
                } else {
                    ObjectiveEvaluation::failed("better_move_available")
                }
            },
            ObjectiveSpec::CompleteSequence { moves } => {
                let n = context.history.len();
                let ghost played = history.map_values(|h: MoveView| uci_text(h));
                let ghost wanted = moves.deep_view();
                let mut prefix = n <= moves.len();
                let mut i: usize = 0;
                while prefix && i < n
                    invariant
                        n == context.history@.len(),
                        history == context.history@.map_values(|h: ChessMove| h@),
                        played == history.map_values(|h: MoveView| uci_text(h)),
                        wanted == moves.deep_view(),
                        i <= n,
                        prefix ==> n <= moves.len(),
                        prefix ==> forall|j: int| 0 <= j < i ==> #[trigger] played[j] == wanted[j],
                        !prefix ==> !is_prefix_of(played, wanted),
                    decreases n - i,
                {
                    let text = context.history[i].to_uci();
                    if text != moves[i] {
                        prefix = false;
                        proof {
                            assert(played[i as int] == text@);
                        }
                    } else {
                        proof {
                            assert(played[i as int] == wanted[i as int]);
                        }
                    }
                    i = i + 1;
                }
                if !prefix {
                    ObjectiveEvaluation::failed("sequence_mismatch")
                } else if n == moves.len() {
                    ObjectiveEvaluation::completed()
                } else {
                    let total: u64 = if moves.len() == 0 { 1 } else { moves.len() as u64 };
                    ObjectiveEvaluation::in_progress(n as u64, total)
                }
            },
            ObjectiveSpec::PlayFullGame => {
                if status.game_over {
                    ObjectiveEvaluation::completed()
                } else {
                    ObjectiveEvaluation::in_progress(0, 1)
                }
            },
        }
    }
}

impl ExerciseValidator for DefaultObjectiveEvaluator {
    fn validate<R: ChessRulesEngine>(&self, rules: &R, context: &ObjectiveContext<'_>) -> (res: ObjectiveEvaluation)
        ensures
            res@ == evaluation_spec(
                rules,
                context.objective@,
                context.before@,
                context.after@,
                context.chess_move@,
                context.history@.map_values(|h: ChessMove| h@),
                context.player_color,
            ),
    {
        Self::evaluate(rules, context)
    }
}

/// Whether a text names a square, in either letter case.
pub fn valid_square(value: &str) -> (res: bool)
    ensures
        res == square_spec(value@) is Ok,
{
    Square::new(value).is_ok()
}

/// A capture objective judges the square the move lands on, as it stood before the
/// move: the move completes it exactly when that square held a piece of the other
/// side (of the named kind, when one is named) and the limit did not end it first; a
/// move onto an empty square or onto one of the player's own pieces never does.
pub proof fn law_capture_completes_on_enemy_piece<R: ChessRulesEngine>(
    rules: &R,
    piece: Option<Piece>,
    within_moves: Option<u16>,
    before: Seq<char>,
    after: Seq<char>,
    m: MoveView,
    history: Seq<MoveView>,
    player: Color,
)
    requires
        rules.status_of(after) is Ok,
    ensures
        evaluation_spec(rules, ObjectiveView::Capture { piece, within_moves }, before, after, m, history, player).status
            == ObjectiveStatus::Completed <==> (rules.piece_at_of(before, m.to) matches Ok(Some(captured))
            && captured.color != player && (piece matches Some(expected) ==> expected == captured.piece)),
        (rules.piece_at_of(before, m.to) matches Ok(Some(captured)) && captured.color != player && piece is None)
            ==> evaluation_spec(rules, ObjectiveView::Capture { piece, within_moves }, before, after, m, history, player).status
            == ObjectiveStatus::Completed,
        !(rules.piece_at_of(before, m.to) matches Ok(Some(captured)) && captured.color != player)
            ==> evaluation_spec(rules, ObjectiveView::Capture { piece, within_moves }, before, after, m, history, player).status
            != ObjectiveStatus::Completed,
{
}

/// Each objective is completed by the move exactly when what it asks for holds: mate
/// after the move, check after it, the named piece moved (to the target when there is
/// one), the target square reached, a promotion, check before the move and none
/// after, the player ahead in material after it, the named move played, the game over;
/// a mate objective whose move limit is reached without mate fails.
pub proof fn law_objectives_complete_when_achieved<R: ChessRulesEngine>(
    rules: &R,
    objective: ObjectiveView,
    before: Seq<char>,
    after: Seq<char>,
    m: MoveView,
    history: Seq<MoveView>,
    player: Color,
    status: crate::board::PositionStatus,
)
    requires
        rules.status_of(after) == Ok::<crate::board::PositionStatus, crate::board::ChessFault>(status),
    ensures
        ({
            let done = evaluation_spec(rules, objective, before, after, m, history, player).status
                == ObjectiveStatus::Completed;
            match objective {
                ObjectiveView::Checkmate { max_moves } => done == status.checkmate,
                ObjectiveView::Check => done == status.in_check,
                ObjectiveView::MovePiece { piece, target } => done == ((rules.piece_at_of(before, m.from) matches Ok(
                    Some(found),
                ) && found.piece == piece) && (target matches Some(t) ==> m.to == t)),
                ObjectiveView::ReachSquare { target } => done == (m.to == target),
                ObjectiveView::Promote => done == (m.promotion is Some),
                ObjectiveView::EscapeCheck => done == ((rules.status_of(before) matches Ok(s) && s.in_check)
                    && !status.in_check),
                ObjectiveView::WinMaterial => done == (rules.material_of(after, player) matches Ok(b) && b > 0),
                ObjectiveView::BestMove { uci } => done == (uci_text(m) == uci),
                ObjectiveView::PlayFullGame => done == status.game_over,
                _ => true,
            }
        }),
        objective matches ObjectiveView::Checkmate { max_moves } ==> (!status.checkmate && (max_moves matches Some(
            limit,
        ) && history.len() >= limit) ==> evaluation_spec(rules, objective, before, after, m, history, player).status
            == ObjectiveStatus::Failed),
{
}

} // verus!
