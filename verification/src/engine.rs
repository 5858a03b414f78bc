//! A small bounded search that picks moves for engine opponents and hints.
use std::sync::Arc;

use vstd::prelude::*;

use crate::board::{ChessError, ChessFault, ChessMove, Color, MoveView, Position, PositionStatus};
use crate::rules::{
    material_limit, ChessRulesEngine, ShakmatyRules,
};

verus! {

/// The score of a lost position, before the remaining depth is subtracted.
pub const MATE_SCORE: i32 = 100_000;

/// How strong and how varied the engine plays. Randomness is in thousandths: the
/// engine picks among the best `round(n * randomness / 1000)` of its `n` moves.
#[derive(Debug, Clone, Copy, PartialEq, Eq, Structural)]
pub struct EngineDifficulty {
    pub search_depth: Option<u8>,
    pub time_limit_ms: Option<u64>,
    pub randomness_permille: u16,
    pub evaluation_noise_permille: u16,
}

impl Default for EngineDifficulty {
    fn default() -> (res: EngineDifficulty)
        ensures
            res == (EngineDifficulty {
                search_depth: Some(2),
                time_limit_ms: Some(250),
                randomness_permille: 100,
                evaluation_noise_permille: 0,
            }),
    {
        EngineDifficulty {
            search_depth: Some(2),
            time_limit_ms: Some(250),
            randomness_permille: 100,
            evaluation_noise_permille: 0,
        }
    }
}

/// The difficulty of an educational level, 1 (weakest) to 5; other levels are clamped.
pub open spec fn level_spec(level: u8) -> EngineDifficulty {
    let l = if level < 1 {
        1u8
    } else if level > 5 {
        5u8
    } else {
        level
    };
    if l == 1 {
        EngineDifficulty {
            search_depth: Some(1),
            time_limit_ms: Some(100),
            randomness_permille: 450,
            evaluation_noise_permille: 250,
        }
    } else if l == 2 {
        EngineDifficulty {
            search_depth: Some(2),
            time_limit_ms: Some(150),
            randomness_permille: 250,
            evaluation_noise_permille: 150,
        }
    } else if l == 3 {
        EngineDifficulty {
            search_depth: Some(2),
            time_limit_ms: Some(250),
            randomness_permille: 100,
            evaluation_noise_permille: 0,
        }
    } else if l == 4 {
        EngineDifficulty {
            search_depth: Some(3),
            time_limit_ms: Some(500),
            randomness_permille: 30,
            evaluation_noise_permille: 0,
        }
    } else {
        EngineDifficulty {
            search_depth: Some(4),
            time_limit_ms: Some(1_000),
            randomness_permille: 0,
            evaluation_noise_permille: 0,
        }
    }
}

impl EngineDifficulty {
    /// The difficulty of an educational level.
    pub fn educational_level(level: u8) -> (res: EngineDifficulty)
        ensures
            res == level_spec(level),
    {
        let l = if level < 1 {
            1u8
        } else if level > 5 {
            5u8
        } else {
            level
        };
        if l == 1 {
            EngineDifficulty {
                search_depth: Some(1),
                time_limit_ms: Some(100),
                randomness_permille: 450,
                evaluation_noise_permille: 250,
            }
        } else if l == 2 {
            EngineDifficulty {
                search_depth: Some(2),
                time_limit_ms: Some(150),
                randomness_permille: 250,
                evaluation_noise_permille: 150,
            }
        } else if l == 3 {
            EngineDifficulty::default()
        } else if l == 4 {
            EngineDifficulty {
                search_depth: Some(3),
                time_limit_ms: Some(500),
                randomness_permille: 30,
                evaluation_noise_permille: 0,
            }
        } else {
            EngineDifficulty {
                search_depth: Some(4),
                time_limit_ms: Some(1_000),
                randomness_permille: 0,
                evaluation_noise_permille: 0,
            }
        }
    }
}

/// Why the engine could not pick a move, as data for contracts.
pub ghost enum EngineFault {
    Chess(ChessFault),
    NoLegalMoves,
}

/// Errors of the engine.
#[derive(Debug)]
pub enum EngineError {
    Chess(ChessError),
    NoLegalMoves,
}

impl View for EngineError {
    type V = EngineFault;

    open spec fn view(&self) -> EngineFault {
        match self {
            EngineError::Chess(e) => EngineFault::Chess(e@),
            EngineError::NoLegalMoves => EngineFault::NoLegalMoves,
        }
    }
}

/// Something that picks a move for a position.
pub trait ChessAi: Send + Sync {
    fn select_move(&self, position: &Position, difficulty: EngineDifficulty) -> Result<ChessMove, EngineError>;
}

/// `std::time::Instant`, declared so that deadlines can be carried through the search.
#[verifier::external_type_specification]
#[verifier::external_body]
pub struct ExInstant(std::time::Instant);

/// `Instant::now`; nothing is known of the reading.
#[verifier::external_body]
fn clock_now() -> std::time::Instant {
    std::time::Instant::now()
}

/// `start + Duration::from_millis(ms)`; it does not overflow for the short budgets used.
#[verifier::external_body]
fn later_by(start: std::time::Instant, ms: u64) -> std::time::Instant
    requires
        ms <= 2_000,
{
    start + std::time::Duration::from_millis(ms)
}

/// `Instant::now() >= deadline`; the answer depends on the clock.
#[verifier::external_body]
fn deadline_reached(deadline: &std::time::Instant) -> bool {
    std::time::Instant::now() >= *deadline
}

/// A move with its score, best first after sorting.
pub open spec fn scored_view(s: Seq<(ChessMove, i32)>) -> Seq<(MoveView, int)> {
    s.map_values(|e: (ChessMove, i32)| (e.0@, e.1 as int))
}

/// Where an item with the given score goes in a list sorted best first: after every
/// item that scores at least as much.
pub open spec fn insert_position(sorted: Seq<(MoveView, int)>, score: int) -> int
    decreases sorted.len(),
{
    if sorted.len() == 0 {
        0
    } else if sorted[0].1 < score {
        0
    } else {
        1 + insert_position(sorted.drop_first(), score)
    }
}

/// A stable sort by score, highest first (`sort_by_key` with `Reverse`).
pub open spec fn sort_best_first(s: Seq<(MoveView, int)>) -> Seq<(MoveView, int)>
    decreases s.len(),
{
    if s.len() == 0 {
        Seq::empty()
    } else {
        let sorted = sort_best_first(s.drop_last());
        sorted.insert(insert_position(sorted, s.last().1), s.last())
    }
}

/// How many of the best moves the engine chooses among.
pub open spec fn alternatives_spec(n: nat, randomness_permille: u16) -> nat {
    let r = if randomness_permille > 1000 {
        1000
    } else {
        randomness_permille as nat
    };
    let rounded = (n * r + 500) / 1000;
    if rounded < 1 {
        1
    } else if rounded > n {
        n
    } else {
        rounded
    }
}

/// The hash of a FEN's bytes that makes the engine's choice repeatable.
pub open spec fn fen_seed(bytes: Seq<u8>) -> usize
    decreases bytes.len(),
{
    if bytes.len() == 0 {
        0
    } else {
        vstd::wrapping::usize_specs::wrapping_add(
            vstd::wrapping::usize_specs::wrapping_mul(fen_seed(bytes.drop_last()), 31),
            bytes.last() as usize,
        )
    }
}

/// The move `pick_move` chooses: among the sorted scores, the one at the seed modulo
/// the number of alternatives.
pub open spec fn pick_spec(scored: Seq<(MoveView, int)>, randomness_permille: u16, seed: usize) -> MoveView {
    let sorted = sort_best_first(scored);
    sorted[(seed as nat % alternatives_spec(scored.len(), randomness_permille)) as int].0
}

proof fn lemma_insert_position_bound(sorted: Seq<(MoveView, int)>, score: int)
    ensures
        0 <= insert_position(sorted, score) <= sorted.len(),
    decreases sorted.len(),
{
    if sorted.len() > 0 && sorted[0].1 >= score {
        lemma_insert_position_bound(sorted.drop_first(), score);
    }
}

proof fn lemma_sort_len(s: Seq<(MoveView, int)>)
    ensures
        sort_best_first(s).len() == s.len(),
        forall|i: int| 0 <= i < s.len() ==> s.contains(#[trigger] sort_best_first(s)[i]),
    decreases s.len(),
{
    if s.len() > 0 {
        lemma_sort_len(s.drop_last());
        let sorted = sort_best_first(s.drop_last());
        lemma_insert_position_bound(sorted, s.last().1);
        let k = insert_position(sorted, s.last().1);
        assert forall|i: int| 0 <= i < s.len() implies s.contains(#[trigger] sort_best_first(s)[i]) by {
            if i < k {
                assert(sort_best_first(s)[i] == sorted[i]);
                assert(s.drop_last().contains(sorted[i]));
                let j = choose|j: int| 0 <= j < s.drop_last().len() && s.drop_last()[j] == sorted[i];
                assert(s[j] == sorted[i]);
            } else if i == k {
                assert(s[s.len() - 1] == s.last());
            } else {
                assert(sort_best_first(s)[i] == sorted[i - 1]);
                assert(s.drop_last().contains(sorted[i - 1]));
                let j = choose|j: int| 0 <= j < s.drop_last().len() && s.drop_last()[j] == sorted[i - 1];
                assert(s[j] == sorted[i - 1]);
            }
        }
    }
}

/// Sorts scored moves best first, keeping the order of equal scores.
pub fn sort_scored(scored: Vec<(ChessMove, i32)>) -> (res: Vec<(ChessMove, i32)>)
    ensures
        scored_view(res@) == sort_best_first(scored_view(scored@)),
{
    let ghost input = scored_view(scored@);
    let mut sorted: Vec<(ChessMove, i32)> = Vec::new();
    let mut rest = scored;
    let mut taken: Vec<(ChessMove, i32)> = Vec::new();
    let mut i: usize = 0;
    let n = rest.len();
    proof {
        assert(input.take(0) =~= Seq::<(MoveView, int)>::empty());
        assert(scored_view(sorted@) =~= Seq::<(MoveView, int)>::empty());
    }
    while i < n
        invariant
            n == rest.len(),
            i <= n,
            input == scored_view(rest@),
            scored_view(sorted@) == sort_best_first(input.take(i as int)),
        decreases n - i,
    {
        let item = (rest[i].0.copied(), rest[i].1);
        let ghost before = scored_view(sorted@);
        let mut k: usize = 0;
        proof {
            lemma_sort_len(input.take(i as int));
            assert(before.skip(0) =~= before);
        }
        while k < sorted.len() && sorted[k].1 >= item.1
            invariant
                k <= sorted.len(),
                before == scored_view(sorted@),
                insert_position(before, item.1 as int) == k + insert_position(before.skip(k as int), item.1 as int),
            decreases sorted.len() - k,
        {
            proof {
                assert(before.skip(k as int).drop_first() =~= before.skip(k + 1));
            }
            k = k + 1;
        }
        proof {
            if k < sorted.len() {
                assert(before.skip(k as int)[0] == before[k as int]);
            }
        }
        sorted.insert(k, item);
        proof {
            assert(input.take(i + 1).drop_last() =~= input.take(i as int));
            assert(input.take(i + 1).last() == (item.0@, item.1 as int));
            assert(scored_view(sorted@) =~= before.insert(k as int, (item.0@, item.1 as int)));
        }
        i = i + 1;
    }
    proof {
        assert(input.take(n as int) =~= input);
    }
    sorted
}

/// Picks a move from scored moves: sorts them best first and takes the one at
/// `seed` modulo the number of alternatives.
pub fn pick_move(scored: Vec<(ChessMove, i32)>, randomness_permille: u16, seed: usize) -> (res: ChessMove)
    requires
        scored@.len() > 0,
    ensures
        res@ == pick_spec(scored_view(scored@), randomness_permille, seed),
{
    let ghost view = scored_view(scored@);
    let n = scored.len();
    let r: u128 = if randomness_permille > 1000 { 1000 } else { randomness_permille as u128 };
    proof {
        assert(n as u128 <= 18_446_744_073_709_551_615u128);
        assert((n as u128) * r <= 18_446_744_073_709_551_615_000u128) by (nonlinear_arith)
            requires
                n as u128 <= 18_446_744_073_709_551_615u128,
                r <= 1000,
        ;
    }
    let rounded: u128 = ((n as u128) * r + 500) / 1000;
    let alternatives: usize = if rounded < 1 {
        1
    } else if rounded > n as u128 {
        n
    } else {
        rounded as usize
    };
    let sorted = sort_scored(scored);
    proof {
        lemma_sort_len(view);
    }
    let index = seed % alternatives;
    proof {
        assert(scored_view(sorted@)[index as int] == (sorted@[index as int].0@, sorted@[index as int].1 as int));
    }
    sorted[index].0.copied()
}

/// The seed of a FEN: a rolling hash of its bytes.
pub fn seed_of(fen: &str) -> (res: usize)
    ensures
        res == fen_seed(vstd::utf8::encode_utf8(fen@)),
{
    let bytes = fen.as_bytes();
    let mut acc: usize = 0;
    let mut i: usize = 0;
    proof {
        assert(bytes@.take(0) =~= Seq::<u8>::empty());
    }
    while i < bytes.len()
        invariant
            i <= bytes@.len(),
            bytes@ == vstd::utf8::encode_utf8(fen@),
            acc == fen_seed(bytes@.take(i as int)),
        decreases bytes.len() - i,
    {
        proof {
            assert(bytes@.take(i + 1).drop_last() =~= bytes@.take(i as int));
        }
        acc = acc.wrapping_mul(31).wrapping_add(bytes[i] as usize);
        i = i + 1;
    }
    proof {
        assert(bytes@.take(i as int) =~= bytes@);
    }
    acc
}

/// Whether every rules call that a search of `depth` plies from a position may make
/// succeeds: the status, the material balance of each position that is not over, and,
/// while plies remain, the legal moves and every position they lead to.
pub open spec fn search_ok<R: ChessRulesEngine>(rules: &R, fen: Seq<char>, depth: nat) -> bool
    decreases depth,
{
    match rules.status_of(fen) {
        Err(_) => false,
        Ok(s) => s.checkmate || s.stalemate || s.game_over || (rules.material_of(fen, s.side_to_move) is Ok && (depth
            == 0 || match rules.legal_moves_of(fen) {
            Err(_) => false,
            Ok(ms) => forall|i: int|
                0 <= i < ms.len() ==> match #[trigger] rules.after_move(fen, ms[i]) {
                    Ok(n) => search_ok(rules, n, (depth - 1) as nat),
                    Err(_) => false,
                },
        })),
    }
}

/// Whether the clock's reading at a place says that the deadline has passed; readings
/// past the end say it has not.
pub open spec fn clock_says(clock: Seq<bool>, at: nat) -> bool {
    at < clock.len() && clock[at as int]
}

/// A clock that starts with the readings of another.
pub open spec fn clock_extends(clock: Seq<bool>, prefix: Seq<bool>) -> bool {
    clock.len() >= prefix.len() && clock.take(prefix.len() as int) == prefix
}

/// The material balance for a side, if the rules give one.
pub open spec fn material_value<R: ChessRulesEngine>(rules: &R, fen: Seq<char>, side: Color) -> Option<int> {
    match rules.material_of(fen, side) {
        Ok(v) => Some(v),
        Err(_) => None,
    }
}

/// A negamax search with window `alpha`..`beta`, reading the clock from place `at`:
/// its value (`None` when a rules call fails) and the place of the next reading. A lost
/// position scores `-MATE_SCORE - depth`, a drawn one zero; with no plies left, or
/// once the clock says the deadline has passed, the material balance for the side to
/// move; else the best of the children's negated values.
pub open spec fn search_run<R: ChessRulesEngine>(
    rules: &R,
    fen: Seq<char>,
    depth: nat,
    alpha: int,
    beta: int,
    clock: Seq<bool>,
    at: nat,
) -> (Option<int>, nat)
    decreases depth, 0nat,
{
    match rules.status_of(fen) {
        Err(_) => (None, at),
        Ok(s) => if s.checkmate {
            (Some(-MATE_SCORE - depth), at)
        } else if s.stalemate || s.game_over {
            (Some(0), at)
        } else if depth == 0 {
            (material_value(rules, fen, s.side_to_move), at)
        } else if clock_says(clock, at) {
            (material_value(rules, fen, s.side_to_move), at + 1)
        } else {
            match rules.legal_moves_of(fen) {
                Err(_) => (None, at + 1),
                Ok(ms) => children_run(rules, fen, ms, (depth - 1) as nat, alpha, beta, -MATE_SCORE, clock, at + 1),
            }
        },
    }
}

/// The children's part of a search: the moves are looked at in turn, each child
/// searched `depth` plies deep with the window negated, until the clock says the
/// deadline has passed or a child's value closes the window; `best` is the best value
/// so far.
pub open spec fn children_run<R: ChessRulesEngine>(
    rules: &R,
    fen: Seq<char>,
    moves: Seq<MoveView>,
    depth: nat,
    alpha: int,
    beta: int,
    best: int,
    clock: Seq<bool>,
    at: nat,
) -> (Option<int>, nat)
    decreases depth, moves.len() + 1,
{
    if moves.len() == 0 {
        (Some(best), at)
    } else if clock_says(clock, at) {
        (Some(best), at + 1)
    } else {
        match rules.after_move(fen, moves[0]) {
            Err(_) => (None, at + 1),
            Ok(next) => {
                let child = search_run(rules, next, depth, -beta, -alpha, clock, at + 1);
                match child.0 {
                    None => (None, child.1),
                    Some(c) => {
                        let score = -c;
                        let best2 = if score > best { score } else { best };
                        let alpha2 = if score > alpha { score } else { alpha };
                        if alpha2 >= beta {
                            (Some(best2), child.1)
                        } else {
                            children_run(rules, fen, moves.drop_first(), depth, alpha2, beta, best2, clock, child.1)
                        }
                    },
                }
            },
        }
    }
}

proof fn lemma_extends_trans(a: Seq<bool>, b: Seq<bool>, c: Seq<bool>)
    requires
        clock_extends(a, b),
        clock_extends(b, c),
    ensures
        clock_extends(a, c),
{
    assert(a.take(c.len() as int) =~= a.take(b.len() as int).take(c.len() as int));
}

/// The values a search may give, whatever the clock says.
pub open spec fn search_value<R: ChessRulesEngine>(rules: &R, fen: Seq<char>, depth: nat, alpha: int, beta: int, v: int) -> bool {
    exists|clock: Seq<bool>| #[trigger] search_run(rules, fen, depth, alpha, beta, clock, 0).0 == Some(v)
}

/// A search reads the clock only forward.
proof fn lemma_search_moves_on<R: ChessRulesEngine>(
    rules: &R,
    fen: Seq<char>,
    depth: nat,
    alpha: int,
    beta: int,
    clock: Seq<bool>,
    at: nat,
)
    ensures
        search_run(rules, fen, depth, alpha, beta, clock, at).1 >= at,
    decreases depth, 0nat,
{
    if let Ok(s) = rules.status_of(fen) {
        if !s.checkmate && !(s.stalemate || s.game_over) && depth > 0 && !clock_says(clock, at) {
            if let Ok(ms) = rules.legal_moves_of(fen) {
                lemma_children_move_on(rules, fen, ms, (depth - 1) as nat, alpha, beta, -MATE_SCORE, clock, at + 1);
            }
        }
    }
}

/// The children's part of a search reads the clock only forward.
proof fn lemma_children_move_on<R: ChessRulesEngine>(
    rules: &R,
    fen: Seq<char>,
    moves: Seq<MoveView>,
    depth: nat,
    alpha: int,
    beta: int,
    best: int,
    clock: Seq<bool>,
    at: nat,
)
    ensures
        children_run(rules, fen, moves, depth, alpha, beta, best, clock, at).1 >= at,
    decreases depth, moves.len() + 1,
{
    if moves.len() > 0 && !clock_says(clock, at) {
        if let Ok(next) = rules.after_move(fen, moves[0]) {
            lemma_search_moves_on(rules, next, depth, -beta, -alpha, clock, at + 1);
            let child = search_run(rules, next, depth, -beta, -alpha, clock, at + 1);
            if let Some(c) = child.0 {
                let score = -c;
                let best2 = if score > best { score } else { best };
                let alpha2 = if score > alpha { score } else { alpha };
                if alpha2 < beta {
                    lemma_children_move_on(rules, fen, moves.drop_first(), depth, alpha2, beta, best2, clock, child.1);
                }
            }
        }
    }
}

/// A search that stopped reading within a clock gives the same on any longer clock
/// that starts with the same readings.
proof fn lemma_search_stable<R: ChessRulesEngine>(
    rules: &R,
    fen: Seq<char>,
    depth: nat,
    alpha: int,
    beta: int,
    clock: Seq<bool>,
    longer: Seq<bool>,
    at: nat,
)
    requires
        search_run(rules, fen, depth, alpha, beta, clock, at).1 <= clock.len(),
        clock_extends(longer, clock),
    ensures
        search_run(rules, fen, depth, alpha, beta, longer, at) == search_run(rules, fen, depth, alpha, beta, clock, at),
    decreases depth, 0nat,
{
    if let Ok(s) = rules.status_of(fen) {
        if !s.checkmate && !(s.stalemate || s.game_over) && depth > 0 {
            if !clock_says(clock, at) {
                if let Ok(ms) = rules.legal_moves_of(fen) {
                    lemma_children_move_on(rules, fen, ms, (depth - 1) as nat, alpha, beta, -MATE_SCORE, clock, at + 1);
                }
            }
            assert(at < clock.len());
            assert(longer[at as int] == longer.take(clock.len() as int)[at as int]);
            if !clock_says(clock, at) {
                if let Ok(ms) = rules.legal_moves_of(fen) {
                    lemma_children_stable(rules, fen, ms, (depth - 1) as nat, alpha, beta, -MATE_SCORE, clock, longer, at + 1);
                }
            }
        }
    }
}

/// The children's part of a search likewise gives the same on a longer clock.
proof fn lemma_children_stable<R: ChessRulesEngine>(
    rules: &R,
    fen: Seq<char>,
    moves: Seq<MoveView>,
    depth: nat,
    alpha: int,
    beta: int,
    best: int,
    clock: Seq<bool>,
    longer: Seq<bool>,
    at: nat,
)
    requires
        children_run(rules, fen, moves, depth, alpha, beta, best, clock, at).1 <= clock.len(),
        clock_extends(longer, clock),
    ensures
        children_run(rules, fen, moves, depth, alpha, beta, best, longer, at) == children_run(
            rules,
            fen,
            moves,
            depth,
            alpha,
            beta,
            best,
            clock,
            at,
        ),
    decreases depth, moves.len() + 1,
{
    if moves.len() > 0 {
        if !clock_says(clock, at) {
            if let Ok(next) = rules.after_move(fen, moves[0]) {
                lemma_search_moves_on(rules, next, depth, -beta, -alpha, clock, at + 1);
                let child = search_run(rules, next, depth, -beta, -alpha, clock, at + 1);
                if let Some(c) = child.0 {
                    let score = -c;
                    let best2 = if score > best { score } else { best };
                    let alpha2 = if score > alpha { score } else { alpha };
                    if alpha2 < beta {
                        lemma_children_move_on(rules, fen, moves.drop_first(), depth, alpha2, beta, best2, clock, child.1);
                    }
                }
            }
        }
        assert(at < clock.len());
        assert(longer[at as int] == longer.take(clock.len() as int)[at as int]);
        if !clock_says(clock, at) {
            if let Ok(next) = rules.after_move(fen, moves[0]) {
                let child = search_run(rules, next, depth, -beta, -alpha, clock, at + 1);
                if let Some(c) = child.0 {
                    let score = -c;
                    let best2 = if score > best { score } else { best };
                    let alpha2 = if score > alpha { score } else { alpha };
                    if alpha2 < beta {
                        lemma_children_move_on(rules, fen, moves.drop_first(), depth, alpha2, beta, best2, clock, child.1);
                    }
                }
                lemma_search_stable(rules, next, depth, -beta, -alpha, clock, longer, at + 1);
                if let Some(c) = child.0 {
                    let score = -c;
                    let best2 = if score > best { score } else { best };
                    let alpha2 = if score > alpha { score } else { alpha };
                    if alpha2 < beta {
                        lemma_children_stable(rules, fen, moves.drop_first(), depth, alpha2, beta, best2, clock, longer, child.1);
                    }
                }
            }
        }
    }
}

/// The search depth of a difficulty: its own clamped to 1..=5, else 2.
pub open spec fn depth_of(difficulty: EngineDifficulty) -> nat {
    match difficulty.search_depth {
        Some(d) => if d < 1 {
            1
        } else if d > 5 {
            5
        } else {
            d as nat
        },
        None => 2,
    }
}

/// Each legal move paired with its score.
pub open spec fn paired(moves: Seq<MoveView>, scores: Seq<int>) -> Seq<(MoveView, int)> {
    Seq::new(moves.len(), |i: int| (moves[i], scores[i]))
}

/// Scores of the legal moves that a search may give: each the negated value of a
/// search of the position the move leads to, with the full window.
pub open spec fn search_scores<R: ChessRulesEngine>(rules: &R, fen: Seq<char>, moves: Seq<MoveView>, depth: nat, scores: Seq<int>) -> bool {
    &&& scores.len() == moves.len()
    &&& forall|i: int|
        0 <= i < moves.len() ==> match #[trigger] rules.after_move(fen, moves[i]) {
            Ok(next) => search_value(rules, next, depth, -MATE_SCORE, MATE_SCORE as int, -scores[i]),
            Err(_) => false,
        }
}

/// What the engine may choose in a position: the pick among the best of the legal
/// moves scored by the search, seeded by the FEN.
pub open spec fn engine_choice<R: ChessRulesEngine>(rules: &R, fen: Seq<char>, difficulty: EngineDifficulty, m: MoveView) -> bool {
    rules.legal_moves_of(fen) matches Ok(ms) && ms.len() > 0 && exists|scores: Seq<int>|
        #[trigger] search_scores(rules, fen, ms, (depth_of(difficulty) - 1) as nat, scores) && m == pick_spec(
            paired(ms, scores),
            difficulty.randomness_permille,
            fen_seed(vstd::utf8::encode_utf8(fen)),
        )
}

/// Every rules call the engine's search may make succeeds.
pub open spec fn choice_ok<R: ChessRulesEngine>(rules: &R, fen: Seq<char>, difficulty: EngineDifficulty) -> bool {
    rules.legal_moves_of(fen) matches Ok(ms) && forall|i: int|
        0 <= i < ms.len() ==> match #[trigger] rules.after_move(fen, ms[i]) {
            Ok(next) => search_ok(rules, next, (depth_of(difficulty) - 1) as nat),
            Err(_) => false,
        }
}

/// A search engine that scores material and looks a few moves ahead.
pub struct SimpleEngine<R: ChessRulesEngine> {
    rules: Arc<R>,
}

/// The widest window a search is given: a mate found five plies deep.
pub open spec fn score_limit() -> int {
    MATE_SCORE + 5
}

impl<R: ChessRulesEngine> SimpleEngine<R> {
    /// An engine over the given rules.
    pub fn new(rules: Arc<R>) -> (res: Self)
        ensures
            res.rules() == *rules,
    {
        SimpleEngine { rules }
    }

    /// The rules the engine searches with.
    pub closed spec fn rules(&self) -> R {
        *self.rules
    }

    /// Negamax with alpha-beta pruning, stopped early when the deadline passes. The
    /// clock readings taken are appended to `log`, and the value is the one the search
    /// gives on those readings.
    fn negamax(
        &self,
        position: &Position,
        depth: u8,
        alpha: i32,
        beta: i32,
        deadline: &std::time::Instant,
        Ghost(log): Ghost<Seq<bool>>,
    ) -> (res: (Result<i32, EngineError>, Ghost<Seq<bool>>))
        requires
            depth <= 5,
            -score_limit() <= alpha <= score_limit(),
            -score_limit() <= beta <= score_limit(),
        ensures
            clock_extends(res.1@, log),
            res.0 matches Ok(v) ==> -(MATE_SCORE + depth) <= v <= MATE_SCORE + depth,
            res.0 matches Ok(v) ==> search_run(&self.rules(), position@, depth as nat, alpha as int, beta as int, res.1@, log.len())
                == (Some(v as int), res.1@.len()),
            search_ok(&self.rules(), position@, depth as nat) ==> res.0 is Ok,
            res.0 matches Err(e) ==> e is Chess,
            self.rules().status_of(position@) matches Err(f) ==> res.0 matches Err(e) && e@ == EngineFault::Chess(f),
        decreases depth,
    {
        let ghost rules = self.rules();
        let ghost fen = position@;
        let ghost p0 = log.len();
        proof {
            assert(log.take(log.len() as int) =~= log);
        }
        let status = match self.rules.status(position) {
            Ok(status) => status,
            Err(error) => return (Err(EngineError::Chess(error)), Ghost(log)),
        };
        if status.checkmate {
            return (Ok(-MATE_SCORE - depth as i32), Ghost(log));
        }
        if status.stalemate || status.game_over {
            return (Ok(0), Ghost(log));
        }
        if depth == 0 {
            return match self.rules.material_balance(position, status.side_to_move) {
                Ok(balance) => (Ok(balance), Ghost(log)),
                Err(error) => (Err(EngineError::Chess(error)), Ghost(log)),
            };
        }
        let late = deadline_reached(deadline);
        let ghost mut clock = log.push(late);
        proof {
            assert(clock.take(log.len() as int) =~= log);
            assert(clock_says(clock, p0) == late);
        }
        if late {
            return match self.rules.material_balance(position, status.side_to_move) {
                Ok(balance) => (Ok(balance), Ghost(clock)),
                Err(error) => (Err(EngineError::Chess(error)), Ghost(clock)),
            };
        }
        let moves = match self.rules.legal_moves(position) {
            Ok(moves) => moves,
            Err(error) => return (Err(EngineError::Chess(error)), Ghost(clock)),
        };
        let ghost ms = moves.deep_view();
        let ghost cd: nat = (depth - 1) as nat;
        let ghost alpha0: int = alpha as int;
        let ghost start = clock;
        let mut best: i32 = -MATE_SCORE;
        let mut alpha = alpha;
        let mut i: usize = 0;
        proof {
            assert(ms.skip(0) =~= ms);
            assert(clock.take(clock.len() as int) =~= clock);
            assert(clock_extends(clock, clock));
            assert(clock_extends(start, log));
        }
        while i < moves.len()
            invariant_except_break
                forall|c: Seq<bool>|
                    #[trigger] clock_extends(c, clock) ==> children_run(&rules, fen, ms, cd, alpha0, beta as int, -MATE_SCORE, c, p0 + 1)
                        == children_run(&rules, fen, ms.skip(i as int), cd, alpha as int, beta as int, best as int, c, clock.len()),
            invariant
                i <= moves.len(),
                depth > 0,
                cd == depth - 1,
                rules == self.rules(),
                fen == position@,
                ms == moves.deep_view(),
                p0 == log.len(),
                start == log.push(false),
                clock_extends(start, log),
                clock_extends(clock, start),
                clock_extends(clock, clock),
                depth <= 5,
                -score_limit() <= alpha <= score_limit(),
                -score_limit() <= beta <= score_limit(),
                -(MATE_SCORE + depth) <= best <= MATE_SCORE + depth,
                self.rules().status_of(position@) == Ok::<PositionStatus, ChessFault>(status),
                self.rules().legal_moves_of(position@) == Ok::<Seq<MoveView>, ChessFault>(ms),
                !status.checkmate,
                !status.stalemate,
                !status.game_over,
                search_ok(&rules, fen, depth as nat) ==> forall|j: int|
                    0 <= j < ms.len() ==> match #[trigger] rules.after_move(fen, ms[j]) {
                        Ok(n) => search_ok(&rules, n, cd),
                        Err(_) => false,
                    },
            ensures
                children_run(&rules, fen, ms, cd, alpha0, beta as int, -MATE_SCORE, clock, p0 + 1) == (Some(best as int), clock.len()),
                clock_extends(clock, start),
                -(MATE_SCORE + depth) <= best <= MATE_SCORE + depth,
            decreases moves.len() - i,
        {
            let ghost a_i: int = alpha as int;
            let ghost b_i: int = best as int;
            let ghost before = clock;
            let ghost q = clock.len();
            proof {
                assert(ms.skip(i as int).len() > 0);
                assert(ms.skip(i as int)[0] == ms[i as int]);
                assert(ms.skip(i as int).drop_first() =~= ms.skip(i + 1));
            }
            let stop = deadline_reached(deadline);
            proof {
                clock = clock.push(stop);
                assert(clock.take(before.len() as int) =~= before);
                assert(clock.take(start.len() as int) =~= before.take(start.len() as int));
                assert(clock_says(clock, q) == stop);
            }
            if stop {
                proof {
                    assert(clock.take(clock.len() as int) =~= clock);
                    assert(clock_extends(clock, before));
                    lemma_extends_trans(clock, before, start);
                    assert(children_run(&rules, fen, ms.skip(i as int), cd, a_i, beta as int, b_i, clock, q) == (Some(b_i), clock.len()));
                    assert(children_run(&rules, fen, ms, cd, alpha0, beta as int, -MATE_SCORE, clock, p0 + 1) == (Some(best as int), clock.len()));
                }
                break;
            }
            let next = match self.rules.apply_move(position, &moves[i]) {
                Ok(next) => next,
                Err(error) => {
                    proof {
                        assert(clock.take(before.len() as int) =~= before);
                        lemma_extends_trans(clock, before, start);
                        lemma_extends_trans(clock, start, log);
                    }
                    return (Err(EngineError::Chess(error)), Ghost(clock));
                },
            };
            let ghost pushed = clock;
            let (child, out) = self.negamax(&next, depth - 1, -beta, -alpha, deadline, Ghost(clock));
            proof {
                assert(out@.take(before.len() as int) =~= pushed.take(before.len() as int));
                assert(out@.take(start.len() as int) =~= pushed.take(start.len() as int));
                clock = out@;
            }
            let child = match child {
                Ok(child) => child,
                Err(error) => {
                    proof {
                        assert(pushed.take(before.len() as int) =~= before);
                        lemma_extends_trans(clock, pushed, before);
                        lemma_extends_trans(clock, before, start);
                        lemma_extends_trans(clock, start, log);
                    }
                    return (Err(error), Ghost(clock));
                },
            };
            let score = -child;
            if score > best {
                best = score;
            }
            if score > alpha {
                alpha = score;
            }
            proof {
                assert(moves@[i as int]@ == ms[i as int]);
                assert(rules.after_move(fen, ms.skip(i as int)[0]) == Ok::<Seq<char>, ChessFault>(next@));
                assert forall|c: Seq<bool>| #[trigger] clock_extends(c, clock) implies children_run(&rules, fen, ms.skip(i as int), cd, a_i, beta as int, b_i, c, q)
                    == (if alpha >= beta {
                        (Some(best as int), clock.len())
                    } else {
                        children_run(&rules, fen, ms.skip(i + 1), cd, alpha as int, beta as int, best as int, c, clock.len())
                    }) by {
                    assert(c.take(pushed.len() as int) =~= clock.take(pushed.len() as int));
                    assert(c[q as int] == c.take(pushed.len() as int)[q as int]);
                    assert(clock_says(c, q) == false);
                    lemma_search_stable(&rules, next@, cd, -(beta as int), -a_i, clock, c, q + 1);
                }
                assert(clock.take(clock.len() as int) =~= clock);
                assert(pushed.take(before.len() as int) =~= before);
                lemma_extends_trans(clock, pushed, before);
                lemma_extends_trans(clock, before, start);
                assert forall|c: Seq<bool>| #[trigger] clock_extends(c, clock) implies clock_extends(c, before) by {
                    lemma_extends_trans(c, clock, before);
                }
                assert(clock_extends(clock, before));
                assert(clock_extends(clock, clock));
            }
            if alpha >= beta {
                proof {
                    assert(children_run(&rules, fen, ms, cd, alpha0, beta as int, -MATE_SCORE, clock, p0 + 1) == (Some(best as int), clock.len()));
                }
                break;
            }
            i = i + 1;
            proof {
                if i == moves.len() {
                    assert(ms.skip(i as int).len() == 0);
                    assert(clock_extends(clock, clock));
                    assert(children_run(&rules, fen, ms, cd, alpha0, beta as int, -MATE_SCORE, clock, p0 + 1) == (Some(best as int), clock.len()));
                }
            }
        }
        proof {
            assert(clock[p0 as int] == clock.take(start.len() as int)[p0 as int]);
            assert(start.take(log.len() as int) =~= log);
            lemma_extends_trans(clock, start, log);
        }
        (Ok(best), Ghost(clock))
    }

    /// Scores every legal move by searching the position it leads to, and picks one
    /// among the best, repeatably for a FEN.
    pub fn choose_move(&self, position: &Position, difficulty: EngineDifficulty) -> (res: Result<ChessMove, EngineError>)
        ensures
            res matches Ok(m) ==> engine_choice(&self.rules(), position@, difficulty, m@),
            res matches Ok(m) ==> self.rules().legal_moves_of(position@) matches Ok(ms) && ms.contains(m@),
            choice_ok(&self.rules(), position@, difficulty) ==> (res is Ok <==> (self.rules().legal_moves_of(position@) matches Ok(ms) && ms.len() > 0)),
            res matches Err(e) ==> (e is Chess || e is NoLegalMoves),
            self.rules().legal_moves_of(position@) matches Err(f) ==> res matches Err(e) && e@ == EngineFault::Chess(f),
            res matches Err(EngineError::NoLegalMoves) <==> self.rules().legal_moves_of(position@) == Ok::<Seq<MoveView>, ChessFault>(Seq::empty()),
    {
        let ghost rules = self.rules();
        let ghost fen = position@;
        let depth: u8 = match difficulty.search_depth {
            Some(d) => if d < 1 { 1 } else if d > 5 { 5 } else { d },
            None => 2,
        };
        let time_limit: u64 = match difficulty.time_limit_ms {
            Some(t) => if t < 25 { 25 } else if t > 2_000 { 2_000 } else { t },
            None => 250,
        };
        let deadline = later_by(clock_now(), time_limit);
        let moves = match self.rules.legal_moves(position) {
            Ok(moves) => moves,
            Err(error) => return Err(EngineError::Chess(error)),
        };
        let ghost legal = moves.deep_view();
        let ghost cd: nat = (depth_of(difficulty) - 1) as nat;
        let ghost ok = choice_ok(&rules, fen, difficulty);
        let mut scored: Vec<(ChessMove, i32)> = Vec::new();
        let mut i: usize = 0;
        while i < moves.len()
            invariant
                i <= moves.len(),
                rules == self.rules(),
                fen == position@,
                legal == moves.deep_view(),
                self.rules().legal_moves_of(position@) == Ok::<Seq<MoveView>, ChessFault>(legal),
                1 <= depth <= 5,
                depth == depth_of(difficulty),
                cd == depth - 1,
                ok == choice_ok(&rules, fen, difficulty),
                scored@.len() == i,
                forall|j: int| 0 <= j < i ==> #[trigger] scored@[j].0@ == legal[j],
                forall|j: int|
                    0 <= j < i ==> match #[trigger] rules.after_move(fen, legal[j]) {
                        Ok(next) => search_value(&rules, next, cd, -MATE_SCORE, MATE_SCORE as int, -(scored@[j].1 as int)),
                        Err(_) => false,
                    },
            decreases moves.len() - i,
        {
            proof {
                assert(legal.len() == moves@.len());
                assert(legal != Seq::<MoveView>::empty());
                assert(moves@[i as int]@ == legal[i as int]);
            }
            let next = match self.rules.apply_move(position, &moves[i]) {
                Ok(next) => next,
                Err(error) => return Err(EngineError::Chess(error)),
            };
            let (child, out) = self.negamax(&next, depth - 1, -MATE_SCORE, MATE_SCORE, &deadline, Ghost(Seq::empty()));
            let score = match child {
                Ok(child) => -child,
                Err(error) => return Err(error),
            };
            proof {
                assert(search_run(&rules, next@, cd, -MATE_SCORE, MATE_SCORE as int, out@, 0).0 == Some(-(score as int)));
                assert(search_value(&rules, next@, cd, -MATE_SCORE, MATE_SCORE as int, -(score as int)));
            }
            let ghost prior = scored@;
            scored.push((moves[i].copied(), score));
            proof {
                assert forall|j: int|
                    0 <= j < i + 1 implies match #[trigger] rules.after_move(fen, legal[j]) {
                        Ok(next) => search_value(&rules, next, cd, -MATE_SCORE, MATE_SCORE as int, -(scored@[j].1 as int)),
                        Err(_) => false,
                    } by {
                    if j < i {
                        assert(scored@[j] == prior[j]);
                    }
                }
            }
            i = i + 1;
        }
        if scored.len() == 0 {
            proof {
                assert(legal =~= Seq::<MoveView>::empty());
            }
            return Err(EngineError::NoLegalMoves);
        }
        let seed = seed_of(position.fen.as_str());
        let ghost view = scored_view(scored@);
        let chosen = pick_move(scored, difficulty.randomness_permille, seed);
        proof {
            let scores = Seq::new(legal.len(), |j: int| view[j].1);
            assert(paired(legal, scores) =~= view);
            assert(search_scores(&rules, fen, legal, cd, scores));
            lemma_sort_len(view);
            let sorted = sort_best_first(view);
            let k = (seed as nat % alternatives_spec(view.len(), difficulty.randomness_permille)) as int;
            assert(view.contains(sorted[k]));
            let j = choose|j: int| 0 <= j < view.len() && view[j] == sorted[k];
            assert(view[j].0 == scored@[j].0@);
            assert(legal[j] == chosen@);
            assert(legal.len() > 0);
        }
        Ok(chosen)
    }
}

impl ChessAi for SimpleEngine<ShakmatyRules> {
    fn select_move(&self, position: &Position, difficulty: EngineDifficulty) -> (res: Result<ChessMove, EngineError>)
        ensures
            res matches Ok(m) ==> engine_choice(&ShakmatyRules, position@, difficulty, m@),
            res matches Ok(m) ==> ShakmatyRules.legal_moves_of(position@) matches Ok(ms) && ms.contains(m@),
            choice_ok(&ShakmatyRules, position@, difficulty) ==> (res is Ok <==> (ShakmatyRules.legal_moves_of(position@) matches Ok(ms) && ms.len() > 0)),
            res matches Err(e) ==> (e is Chess || e is NoLegalMoves),
            ShakmatyRules.legal_moves_of(position@) matches Err(f) ==> res matches Err(e) && e@ == EngineFault::Chess(f),
            res matches Err(EngineError::NoLegalMoves) <==> ShakmatyRules.legal_moves_of(position@) == Ok::<Seq<MoveView>, ChessFault>(Seq::empty()),
    {
        self.choose_move(position, difficulty)
    }
}

/// A search with no plies left, on a position whose game is not over, is worth the
/// material balance seen from the side to move, whatever the clock says.
pub proof fn law_leaf_is_material_of_side_to_move<R: ChessRulesEngine>(
    rules: &R,
    fen: Seq<char>,
    alpha: int,
    beta: int,
    s: PositionStatus,
    v: int,
)
    requires
        rules.status_of(fen) == Ok::<PositionStatus, ChessFault>(s),
        !s.checkmate,
        !s.stalemate,
        !s.game_over,
        rules.material_of(fen, s.side_to_move) == Ok::<int, ChessFault>(v),
    ensures
        forall|clock: Seq<bool>, at: nat| #[trigger] search_run(rules, fen, 0, alpha, beta, clock, at) == (Some(v), at),
        forall|w: int| search_value(rules, fen, 0, alpha, beta, w) <==> w == v,
{
    assert(search_run(rules, fen, 0, alpha, beta, Seq::<bool>::empty(), 0).0 == Some(v));
}

/// One ply deep with the standard rules, a move's score (the negated value of the
/// position it leads to, searched with no plies left) is the material balance the
/// mover holds after the move: winning material raises it, losing material lowers it.
pub proof fn law_one_ply_score_is_movers_material(next: Seq<char>, alpha: int, beta: int, s: PositionStatus, c: int)
    requires
        ShakmatyRules.status_of(next) == Ok::<PositionStatus, ChessFault>(s),
        !s.checkmate,
        !s.stalemate,
        !s.game_over,
        search_value(&ShakmatyRules, next, 0, alpha, beta, c),
    ensures
        ShakmatyRules.material_of(next, s.side_to_move.spec_opposite()) == Ok::<int, ChessFault>(-c),
{
    let clock = choose|clock: Seq<bool>| #[trigger] search_run(&ShakmatyRules, next, 0, alpha, beta, clock, 0).0 == Some(c);
    assert(search_run(&ShakmatyRules, next, 0, alpha, beta, clock, 0).0 == Some(c));
    crate::rules::law_material_changes_sign_with_the_side(next, s.side_to_move);
}

} // verus!
