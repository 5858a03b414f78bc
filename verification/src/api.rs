//! The decisions of the transport layer: error codes, origins, URLs and the reading
//! of plain request fields.
use vstd::prelude::*;

use crate::board::{fault_text, new_move_spec, result_view, ChessError, ChessMove, Color, MoveView, Piece};
use crate::engine::{EngineError, EngineFault};
use crate::exercise::{
    Difficulty, ExerciseConfig, ExerciseRequest, ExerciseRules, ExerciseType, OpponentConfig, PositionSource,
    SessionMode, TrainingConfig,
};
use crate::repository::{RepositoryError, RepositoryFault};
use crate::service::{uuid_string, uuid_text, SessionError, SessionFault};
use crate::session::{SessionSnapshot, SessionStatus};
use crate::text::{
    ascii_lowercase, contains_char, lower_text, split_at_char, split_spec, starts_with, starts_with_spec, trim,
    trim_end_char, trim_end_char_spec, trim_spec, trim_start_text, trim_start_text_spec,
};

verus! {

/// The text of an engine error.
pub open spec fn engine_fault_text(f: EngineFault) -> Seq<char> {
    match f {
        EngineFault::Chess(c) => fault_text(c),
        EngineFault::NoLegalMoves => "the position has no legal moves"@,
    }
}

/// The text of a storage error.
pub open spec fn repository_fault_text(f: RepositoryFault) -> Seq<char> {
    match f {
        RepositoryFault::Storage(s) => "session storage failed: "@ + s,
    }
}

/// The text of a session error.
pub open spec fn session_fault_text(f: SessionFault) -> Seq<char> {
    match f {
        SessionFault::NotFound => "session not found"@,
        SessionFault::NotPlayable => "session is no longer playable"@,
        SessionFault::NotPlayerTurn => "it is not the player's turn"@,
        SessionFault::MoveLimitReached => "move limit reached"@,
        SessionFault::Exercise(s) => "exercise error: "@ + s,
        SessionFault::Chess(c) => fault_text(c),
        SessionFault::Repository(r) => repository_fault_text(r),
        SessionFault::Engine(e) => engine_fault_text(e),
        SessionFault::EngineTask => "engine task failed"@,
        SessionFault::EngineTimeout => "engine search timed out"@,
    }
}

impl EngineError {
    /// The error's message.
    pub fn message(&self) -> (res: String)
        ensures
            res@ == engine_fault_text(self@),
    {
        match self {
            EngineError::Chess(error) => error.message(),
            EngineError::NoLegalMoves => String::from_str("the position has no legal moves"),
        }
    }
}

impl RepositoryError {
    /// The error's message.
    pub fn message(&self) -> (res: String)
        ensures
            res@ == repository_fault_text(self@),
    {
        match self {
            RepositoryError::Storage(s) => String::from_str("session storage failed: ").concat(s.as_str()),
        }
    }
}

impl SessionError {
    /// The error's message.
    pub fn message(&self) -> (res: String)
        ensures
            res@ == session_fault_text(self@),
    {
        match self {
            SessionError::NotFound => String::from_str("session not found"),
            SessionError::NotPlayable => String::from_str("session is no longer playable"),
            SessionError::NotPlayerTurn => String::from_str("it is not the player's turn"),
            SessionError::MoveLimitReached => String::from_str("move limit reached"),
            SessionError::Exercise(s) => String::from_str("exercise error: ").concat(s.as_str()),
            SessionError::Chess(error) => error.message(),
            SessionError::Repository(error) => error.message(),
            SessionError::Engine(error) => error.message(),
            SessionError::EngineTask => String::from_str("engine task failed"),
            SessionError::EngineTimeout => String::from_str("engine search timed out"),
        }
    }
}

/// An error answer of the HTTP interface: status code, stable code and message.
#[derive(Debug)]
pub struct ApiError {
    pub status: u16,
    pub code: &'static str,
    pub message: String,
}

/// The HTTP status and code of a session error.
pub open spec fn http_failure(f: SessionFault) -> (u16, Seq<char>) {
    match f {
        SessionFault::NotFound => (404, "session_not_found"@),
        SessionFault::NotPlayable => (409, "session_not_playable"@),
        SessionFault::NotPlayerTurn => (409, "not_player_turn"@),
        SessionFault::MoveLimitReached => (409, "move_limit_reached"@),
        SessionFault::Exercise(_) | SessionFault::Chess(_) => (422, "invalid_chess_data"@),
        SessionFault::EngineTimeout => (504, "engine_timeout"@),
        SessionFault::Repository(_) | SessionFault::Engine(_) | SessionFault::EngineTask => (500, "internal_error"@),
    }
}

impl ApiError {
    /// Invalid input: status 422.
    pub fn invalid_input(message: &str) -> (res: ApiError)
        ensures
            res.status == 422,
            res.code@ == "invalid_input"@,
            res.message@ == message@,
    {
        ApiError { status: 422, code: "invalid_input", message: message.to_owned() }
    }

    /// The answer to a failed session operation.
    pub fn from_session_error(error: SessionError) -> (res: ApiError)
        ensures
            (res.status, res.code@) == http_failure(error@),
            res.message@ == session_fault_text(error@),
    {
        let (status, code): (u16, &'static str) = match &error {
            SessionError::NotFound => (404, "session_not_found"),
            SessionError::NotPlayable => (409, "session_not_playable"),
            SessionError::NotPlayerTurn => (409, "not_player_turn"),
            SessionError::MoveLimitReached => (409, "move_limit_reached"),
            SessionError::Exercise(_) | SessionError::Chess(_) => (422, "invalid_chess_data"),
            SessionError::EngineTimeout => (504, "engine_timeout"),
            SessionError::Repository(_) | SessionError::Engine(_) | SessionError::EngineTask => (500, "internal_error"),
        };
        ApiError { status, code, message: error.message() }
    }

    /// The answer to invalid chess input.
    pub fn from_chess_error(error: crate::board::ChessError) -> (res: ApiError)
        ensures
            res.status == 422,
            res.code@ == "invalid_input"@,
            res.message@ == fault_text(error@),
    {
        ApiError::invalid_input(error.message().as_str())
    }
}

/// The gRPC status codes the service answers with.
#[derive(Debug, Clone, Copy, PartialEq, Eq, Structural)]
pub enum GrpcCode {
    NotFound,
    FailedPrecondition,
    InvalidArgument,
    DeadlineExceeded,
    Internal,
}

/// The gRPC code and message of a session error; internal errors hide their text.
pub open spec fn grpc_failure_spec(f: SessionFault) -> (GrpcCode, Seq<char>) {
    match f {
        SessionFault::NotFound => (GrpcCode::NotFound, session_fault_text(f)),
        SessionFault::NotPlayable | SessionFault::NotPlayerTurn | SessionFault::MoveLimitReached => (
            GrpcCode::FailedPrecondition,
            session_fault_text(f),
        ),
        SessionFault::Exercise(_) | SessionFault::Chess(_) => (GrpcCode::InvalidArgument, session_fault_text(f)),
        SessionFault::EngineTimeout => (GrpcCode::DeadlineExceeded, session_fault_text(f)),
        SessionFault::Repository(_) | SessionFault::Engine(_) | SessionFault::EngineTask => (
            GrpcCode::Internal,
            "internal service error"@,
        ),
    }
}

/// The gRPC answer to a failed session operation.
pub fn map_error(error: SessionError) -> (res: (GrpcCode, String))
    ensures
        (res.0, res.1@) == grpc_failure_spec(error@),
{
    match error {
        SessionError::NotFound => (GrpcCode::NotFound, error.message()),
        SessionError::NotPlayable | SessionError::NotPlayerTurn | SessionError::MoveLimitReached => (
            GrpcCode::FailedPrecondition,
            error.message(),
        ),
        SessionError::Exercise(_) | SessionError::Chess(_) => (GrpcCode::InvalidArgument, error.message()),
        SessionError::EngineTimeout => (GrpcCode::DeadlineExceeded, error.message()),
        SessionError::Repository(_) | SessionError::Engine(_) | SessionError::EngineTask => (
            GrpcCode::Internal,
            String::from_str("internal service error"),
        ),
    }
}

/// The wire name of a session status.
pub open spec fn status_name_spec(status: SessionStatus) -> Seq<char> {
    match status {
        SessionStatus::Created => "created"@,
        SessionStatus::InProgress => "in_progress"@,
        SessionStatus::Completed => "completed"@,
        SessionStatus::Failed => "failed"@,
        SessionStatus::Abandoned => "abandoned"@,
    }
}

/// The wire name of a session status.
pub fn status_name(status: SessionStatus) -> (res: &'static str)
    ensures
        res@ == status_name_spec(status),
{
    match status {
        SessionStatus::Created => "created",
        SessionStatus::InProgress => "in_progress",
        SessionStatus::Completed => "completed",
        SessionStatus::Failed => "failed",
        SessionStatus::Abandoned => "abandoned",
    }
}

/// The wire name of a colour.
pub fn color_name(color: Color) -> (res: &'static str)
    ensures
        res@ == (match color {
            Color::White => "white"@,
            Color::Black => "black"@,
        }),
{
    match color {
        Color::White => "white",
        Color::Black => "black",
    }
}

/// An absolute HTTP(S) URL on one line.
pub open spec fn http_url_spec(value: Seq<char>) -> bool {
    (starts_with_spec(value, "http://"@) || starts_with_spec(value, "https://"@)) && !value.contains('\n')
}

/// Whether a text looks like an absolute HTTP(S) URL on one line.
pub fn looks_like_http_url(value: &str) -> (res: bool)
    ensures
        res == http_url_spec(value@),
{
    (starts_with(value, "http://") || starts_with(value, "https://")) && !contains_char(value, '\n')
}

/// The configured origins: the comma-separated entries, trimmed, without empty
/// entries and without `*`.
pub open spec fn origin_entries(pieces: Seq<Seq<char>>) -> Seq<Seq<char>>
    decreases pieces.len(),
{
    if pieces.len() == 0 {
        Seq::empty()
    } else {
        let rest = origin_entries(pieces.drop_last());
        let t = trim_spec(pieces.last());
        if t.len() == 0 || t == "*"@ {
            rest
        } else {
            rest.push(t)
        }
    }
}

/// Reads a comma-separated origin list (the header check is left to the caller).
pub fn origin_candidates(raw: &str) -> (res: Vec<String>)
    ensures
        res.deep_view() == origin_entries(split_spec(raw@, ',')),
{
    let pieces = split_at_char(raw, ',');
    let ghost views = pieces.deep_view();
    let mut out: Vec<String> = Vec::new();
    let mut i: usize = 0;
    proof {
        assert(views.take(0) =~= Seq::<Seq<char>>::empty());
    }
    while i < pieces.len()
        invariant
            i <= pieces.len(),
            views == pieces.deep_view(),
            out.deep_view() == origin_entries(views.take(i as int)),
        decreases pieces.len() - i,
    {
        let t = trim(pieces[i].as_str());
        let star = String::from_str("*");
        proof {
            assert(views.take(i + 1).drop_last() =~= views.take(i as int));
            assert(views.take(i + 1).last() == pieces@[i as int]@);
        }
        let ghost prior = out.deep_view();
        if !(t.as_str().unicode_len() == 0 || t == star) {
            out.push(t);
            proof {
                assert(out.deep_view() =~= prior.push(trim_spec(pieces@[i as int]@)));
            }
        }
        i = i + 1;
    }
    proof {
        assert(views.take(i as int) =~= views);
    }
    out
}

/// A character whose UTF-8 bytes a header value accepts: a tab, or a character from
/// the space up other than DEL (every byte of a non-ASCII character is at least 128).
pub open spec fn header_char_ok(c: char) -> bool {
    c == '\t' || (' ' <= c && c != '\x7f')
}

/// A text that is a valid header value.
pub open spec fn header_text_ok(t: Seq<char>) -> bool {
    forall|i: int| 0 <= i < t.len() ==> header_char_ok(#[trigger] t[i])
}

/// `HeaderValue::from_str` (the `http` crate, as axum re-exports it) accepts a text
/// exactly when each of its bytes is a tab or at least 32 and not 127.
#[verifier::external_body]
fn is_header_value(text: &str) -> (res: bool)
    ensures
        res == header_text_ok(text@),
{
    axum::http::HeaderValue::from_str(text).is_ok()
}

/// The items that are valid header values, in order.
pub open spec fn header_values(items: Seq<Seq<char>>) -> Seq<Seq<char>>
    decreases items.len(),
{
    if items.len() == 0 {
        Seq::empty()
    } else {
        let rest = header_values(items.drop_last());
        if header_text_ok(items.last()) {
            rest.push(items.last())
        } else {
            rest
        }
    }
}

/// The setting the frontend origins are read from: the first that is set.
pub open spec fn origin_setting(frontend_origin: Option<Seq<char>>, cors_origin: Option<Seq<char>>) -> Seq<char> {
    match frontend_origin {
        Some(f) => f,
        None => match cors_origin {
            Some(c) => c,
            None => Seq::empty(),
        },
    }
}

/// The configured frontend origins: the first setting that is set (the frontend
/// origin, else the CORS origin), split at commas and trimmed, without empty items and
/// `*`, keeping the items that are valid header values, in order.
pub open spec fn configured_spec(frontend_origin: Option<Seq<char>>, cors_origin: Option<Seq<char>>) -> Seq<Seq<char>> {
    header_values(origin_entries(split_spec(origin_setting(frontend_origin, cors_origin), ',')))
}

/// Reads the configured frontend origins from the two settings that may hold them.
pub fn configured_origins(frontend_origin: Option<&str>, cors_origin: Option<&str>) -> (res: Vec<String>)
    ensures
        res.deep_view() == configured_spec(
            match frontend_origin { Some(v) => Some(v@), None => None },
            match cors_origin { Some(v) => Some(v@), None => None },
        ),
{
    let raw: &str = match frontend_origin {
        Some(f) => f,
        None => match cors_origin {
            Some(c) => c,
            None => "",
        },
    };
    proof {
        reveal_strlit("");
    }
    let candidates = origin_candidates(raw);
    let ghost views = candidates.deep_view();
    let mut out: Vec<String> = Vec::new();
    let mut i: usize = 0;
    proof {
        assert(views.take(0) =~= Seq::<Seq<char>>::empty());
    }
    while i < candidates.len()
        invariant
            i <= candidates.len(),
            views == candidates.deep_view(),
            out.deep_view() == header_values(views.take(i as int)),
        decreases candidates.len() - i,
    {
        proof {
            assert(views.take(i + 1).drop_last() =~= views.take(i as int));
            assert(views.take(i + 1).last() == candidates@[i as int]@);
        }
        let ghost prior = out.deep_view();
        if is_header_value(candidates[i].as_str()) {
            out.push(candidates[i].clone());
            proof {
                assert(out.deep_view() =~= prior.push(candidates@[i as int]@));
            }
        }
        i = i + 1;
    }
    proof {
        assert(views.take(i as int) =~= views);
    }
    out
}

/// The origins a local development setup allows.
pub fn local_dev_origins() -> (res: Vec<String>)
    ensures
        res.deep_view() == seq![
            "http://localhost:4173"@,
            "http://127.0.0.1:4173"@,
            "http://localhost:3000"@,
            "http://127.0.0.1:3000"@,
            "http://localhost:5173"@,
            "http://127.0.0.1:5173"@,
            "http://localhost:8080"@,
            "http://127.0.0.1:8080"@,
        ],
{
    let mut res: Vec<String> = Vec::new();
    res.push(String::from_str("http://localhost:4173"));
    res.push(String::from_str("http://127.0.0.1:4173"));
    res.push(String::from_str("http://localhost:3000"));
    res.push(String::from_str("http://127.0.0.1:3000"));
    res.push(String::from_str("http://localhost:5173"));
    res.push(String::from_str("http://127.0.0.1:5173"));
    res.push(String::from_str("http://localhost:8080"));
    res.push(String::from_str("http://127.0.0.1:8080"));
    proof {
        assert(res.deep_view() =~= seq![
            "http://localhost:4173"@,
            "http://127.0.0.1:4173"@,
            "http://localhost:3000"@,
            "http://127.0.0.1:3000"@,
            "http://localhost:5173"@,
            "http://127.0.0.1:5173"@,
            "http://localhost:8080"@,
            "http://127.0.0.1:8080"@,
        ]);
    }
    res
}

/// The service runs hosted: on Railway, or with `RUST_ENV=production`.
pub fn is_hosted(railway_environment: bool, rust_env: Option<&str>) -> (res: bool)
    ensures
        res == (railway_environment || (rust_env matches Some(e) && e@ == "production"@)),
{
    railway_environment || match rust_env {
        Some(e) => e.to_owned() == String::from_str("production"),
        None => false,
    }
}

/// The origins CORS allows: the configured ones; else, when hosted, a placeholder that
/// matches no browser origin; else the local development origins.
pub fn allowed_origins(configured: Vec<String>, hosted: bool) -> (res: Vec<String>)
    ensures
        configured@.len() > 0 ==> res.deep_view() == configured.deep_view(),
        configured@.len() == 0 && hosted ==> res.deep_view() == seq!["https://invalid.invalid"@],
        configured@.len() == 0 && !hosted ==> res.deep_view() == local_dev_origins_spec(),
{
    if configured.len() > 0 {
        return configured;
    }
    if hosted {
        let mut res: Vec<String> = Vec::new();
        res.push(String::from_str("https://invalid.invalid"));
        proof {
            assert(res.deep_view() =~= seq!["https://invalid.invalid"@]);
        }
        return res;
    }
    local_dev_origins()
}

/// The local development origins.
pub open spec fn local_dev_origins_spec() -> Seq<Seq<char>> {
    seq![
        "http://localhost:4173"@,
        "http://127.0.0.1:4173"@,
        "http://localhost:3000"@,
        "http://127.0.0.1:3000"@,
        "http://localhost:5173"@,
        "http://127.0.0.1:5173"@,
        "http://localhost:8080"@,
        "http://127.0.0.1:8080"@,
    ]
}

/// The public base URL: `PUBLIC_API_URL` trimmed and without trailing slashes when it
/// is an HTTP(S) URL; else the Railway public domain (schemes and trailing slashes
/// removed, no path) under `https://`.
pub open spec fn public_api_base_spec(public_api_url: Option<Seq<char>>, railway_domain: Option<Seq<char>>) -> Option<Seq<char>> {
    let from_url = match public_api_url {
        Some(v) => {
            let t = trim_end_char_spec(trim_spec(v), '/');
            if t.len() > 0 && http_url_spec(t) {
                Some(t)
            } else {
                None
            }
        },
        None => None,
    };
    match from_url {
        Some(u) => Some(u),
        None => match railway_domain {
            Some(d) => {
                let t = trim_end_char_spec(
                    trim_start_text_spec(trim_start_text_spec(trim_spec(d), "https://"@), "http://"@),
                    '/',
                );
                if t.len() > 0 && !t.contains('/') {
                    Some("https://"@ + t)
                } else {
                    None
                }
            },
            None => None,
        },
    }
}

/// The public base URL of the service, from the two settings that may give it.
pub fn public_api_base(public_api_url: Option<&str>, railway_domain: Option<&str>) -> (res: Option<String>)
    ensures
        match res {
            Some(r) => public_api_base_spec(
                match public_api_url { Some(v) => Some(v@), None => None },
                match railway_domain { Some(v) => Some(v@), None => None },
            ) == Some(r@),
            None => public_api_base_spec(
                match public_api_url { Some(v) => Some(v@), None => None },
                match railway_domain { Some(v) => Some(v@), None => None },
            ) is None,
        },
{
    if let Some(value) = public_api_url {
        let trimmed = trim(value);
        let t = trim_end_char(trimmed.as_str(), '/');
        if t.as_str().unicode_len() > 0 && looks_like_http_url(t.as_str()) {
            return Some(t);
        }
    }
    match railway_domain {
        Some(domain) => {
            let trimmed = trim(domain);
            let without_https = trim_start_text(trimmed.as_str(), "https://");
            let without_http = trim_start_text(without_https.as_str(), "http://");
            let t = trim_end_char(without_http.as_str(), '/');
            if t.as_str().unicode_len() > 0 && !contains_char(t.as_str(), '/') {
                Some(String::from_str("https://").concat(t.as_str()))
            } else {
                None
            }
        },
        None => None,
    }
}

/// The page that plays a session: under the public base when there is one.
pub fn play_url(id: u128, base: Option<&str>) -> (res: String)
    ensures
        res@ == (match base {
            Some(b) => b@ + "/play/"@ + uuid_text(id),
            None => "/play/"@ + uuid_text(id),
        }),
{
    let id_text = uuid_string(id);
    match base {
        Some(b) => b.to_owned().concat("/play/").concat(id_text.as_str()),
        None => String::from_str("/play/").concat(id_text.as_str()),
    }
}

/// A snapshot whose page URL uses the public base.
pub fn with_play_url(snapshot: SessionSnapshot, base: Option<&str>) -> (res: SessionSnapshot)
    ensures
        res.ui_url@ == (match base {
            Some(b) => b@ + "/play/"@ + uuid_text(snapshot.session_id),
            None => "/play/"@ + uuid_text(snapshot.session_id),
        }),
        res == (SessionSnapshot { ui_url: res.ui_url, ..snapshot }),
{
    let mut snapshot = snapshot;
    snapshot.ui_url = play_url(snapshot.session_id, base);
    snapshot
}

/// Where the board page links back to: the first configured origin when it is an
/// HTTP(S) URL, else nothing.
pub fn launcher_url(first_origin: Option<&str>) -> (res: String)
    ensures
        res@ == (match first_origin {
            Some(o) => if http_url_spec(o@) { o@ } else { Seq::empty() },
            None => Seq::empty(),
        }),
{
    match first_origin {
        Some(origin) => if looks_like_http_url(origin) {
            origin.to_owned()
        } else {
            String::new()
        },
        None => String::new(),
    }
}

/// A refused request field, with the reason.
#[derive(Debug, Clone, PartialEq, Eq)]
pub struct InvalidArgument {
    pub message: String,
}

fn invalid(message: &str) -> (res: InvalidArgument)
    ensures
        res.message@ == message@,
{
    InvalidArgument { message: message.to_owned() }
}

/// The piece a name gives, in any letter case.
pub open spec fn piece_named(value: Seq<char>) -> Option<Piece> {
    let l = lower_text(value);
    if l == "pawn"@ {
        Some(Piece::Pawn)
    } else if l == "knight"@ {
        Some(Piece::Knight)
    } else if l == "bishop"@ {
        Some(Piece::Bishop)
    } else if l == "rook"@ {
        Some(Piece::Rook)
    } else if l == "queen"@ {
        Some(Piece::Queen)
    } else if l == "king"@ {
        Some(Piece::King)
    } else {
        None
    }
}

/// Reads a piece name.
pub fn parse_piece(value: &str) -> (res: Result<Piece, InvalidArgument>)
    ensures
        match piece_named(value@) {
            Some(p) => res == Ok::<Piece, InvalidArgument>(p),
            None => res matches Err(e) && e.message@ == "unknown piece"@,
        },
{
    let l = ascii_lowercase(value);
    if l == String::from_str("pawn") {
        Ok(Piece::Pawn)
    } else if l == String::from_str("knight") {
        Ok(Piece::Knight)
    } else if l == String::from_str("bishop") {
        Ok(Piece::Bishop)
    } else if l == String::from_str("rook") {
        Ok(Piece::Rook)
    } else if l == String::from_str("queen") {
        Ok(Piece::Queen)
    } else if l == String::from_str("king") {
        Ok(Piece::King)
    } else {
        Err(invalid("unknown piece"))
    }
}

/// The difficulty a name gives, in any letter case; the empty name is a beginner's.
pub open spec fn difficulty_named(value: Seq<char>) -> Option<Difficulty> {
    let l = lower_text(value);
    if l == ""@ || l == "beginner"@ {
        Some(Difficulty::Beginner)
    } else if l == "intermediate"@ {
        Some(Difficulty::Intermediate)
    } else if l == "advanced"@ {
        Some(Difficulty::Advanced)
    } else {
        None
    }
}

/// Reads a difficulty name.
pub fn parse_difficulty(value: &str) -> (res: Result<Difficulty, InvalidArgument>)
    ensures
        match difficulty_named(value@) {
            Some(d) => res == Ok::<Difficulty, InvalidArgument>(d),
            None => res matches Err(e) && e.message@ == "unknown difficulty"@,
        },
{
    let l = ascii_lowercase(value);
    if l == String::from_str("") || l == String::from_str("beginner") {
        Ok(Difficulty::Beginner)
    } else if l == String::from_str("intermediate") {
        Ok(Difficulty::Intermediate)
    } else if l == String::from_str("advanced") {
        Ok(Difficulty::Advanced)
    } else {
        Err(invalid("unknown difficulty"))
    }
}

/// The exercise type a name gives, in any letter case.
pub open spec fn exercise_type_named(value: Seq<char>) -> Option<ExerciseType> {
    let l = lower_text(value);
    if l == "piece_movement"@ {
        Some(ExerciseType::PieceMovement)
    } else if l == "puzzle"@ {
        Some(ExerciseType::Puzzle)
    } else if l == "checkmate"@ {
        Some(ExerciseType::Checkmate)
    } else if l == "tactics"@ {
        Some(ExerciseType::Tactics)
    } else if l == "opening"@ {
        Some(ExerciseType::Opening)
    } else if l == "endgame"@ {
        Some(ExerciseType::Endgame)
    } else if l == "full_game"@ {
        Some(ExerciseType::FullGame)
    } else if l == "free_play"@ {
        Some(ExerciseType::FreePlay)
    } else if l == "check_escape"@ {
        Some(ExerciseType::CheckEscape)
    } else if l == "capture_training"@ {
        Some(ExerciseType::CaptureTraining)
    } else {
        None
    }
}

/// Reads an exercise type name.
pub fn parse_exercise_type(value: &str) -> (res: Result<ExerciseType, InvalidArgument>)
    ensures
        match exercise_type_named(value@) {
            Some(t) => res == Ok::<ExerciseType, InvalidArgument>(t),
            None => res matches Err(e) && e.message@ == "unknown exercise type"@,
        },
{
    let l = ascii_lowercase(value);
    if l == String::from_str("piece_movement") {
        Ok(ExerciseType::PieceMovement)
    } else if l == String::from_str("puzzle") {
        Ok(ExerciseType::Puzzle)
    } else if l == String::from_str("checkmate") {
        Ok(ExerciseType::Checkmate)
    } else if l == String::from_str("tactics") {
        Ok(ExerciseType::Tactics)
    } else if l == String::from_str("opening") {
        Ok(ExerciseType::Opening)
    } else if l == String::from_str("endgame") {
        Ok(ExerciseType::Endgame)
    } else if l == String::from_str("full_game") {
        Ok(ExerciseType::FullGame)
    } else if l == String::from_str("free_play") {
        Ok(ExerciseType::FreePlay)
    } else if l == String::from_str("check_escape") {
        Ok(ExerciseType::CheckEscape)
    } else if l == String::from_str("capture_training") {
        Ok(ExerciseType::CaptureTraining)
    } else {
        Err(invalid("unknown exercise type"))
    }
}

/// The session mode a name gives (case-sensitive); the empty name is an exercise.
pub open spec fn mode_named(value: Seq<char>) -> Option<SessionMode> {
    if value == "piece_training"@ {
        Some(SessionMode::PieceTraining)
    } else if value == "full_game"@ {
        Some(SessionMode::FullGame)
    } else if value == "free_play"@ {
        Some(SessionMode::FreePlay)
    } else if value == ""@ || value == "exercise"@ {
        Some(SessionMode::Exercise)
    } else {
        None
    }
}

/// The plain fields of a session request that does not carry a JSON document.
#[derive(Debug, Clone)]
pub struct CreateSessionFields {
    pub mode: String,
    pub exercise_type: String,
    pub difficulty: String,
    pub max_moves: u32,
    pub piece: String,
    pub fen: String,
    pub target: String,
}

/// Builds a session request from plain fields: the mode, difficulty, piece and
/// exercise type are read (in that order, the first refusal wins); empty fields are
/// absent; a full game gets an engine opponent of level 2; the player is White.
pub fn exercise_request(fields: CreateSessionFields) -> (res: Result<ExerciseRequest, InvalidArgument>)
    ensures
        mode_named(fields.mode@) is None ==> (res matches Err(e) && e.message@ == "unknown mode: "@ + fields.mode@),
        mode_named(fields.mode@) is Some && difficulty_named(fields.difficulty@) is None ==> (res matches Err(e) && e.message@ == "unknown difficulty"@),
        mode_named(fields.mode@) is Some && difficulty_named(fields.difficulty@) is Some && fields.piece@.len() > 0 && piece_named(fields.piece@) is None ==> (res matches Err(e) && e.message@ == "unknown piece"@),
        mode_named(fields.mode@) is Some && difficulty_named(fields.difficulty@) is Some && (fields.piece@.len() > 0 ==> piece_named(fields.piece@) is Some) && fields.exercise_type@.len() > 0 && exercise_type_named(fields.exercise_type@) is None ==> (res matches Err(e) && e.message@ == "unknown exercise type"@),
        res is Ok <==> (mode_named(fields.mode@) is Some && difficulty_named(fields.difficulty@) is Some && (fields.piece@.len() > 0 ==> piece_named(fields.piece@) is Some) && (fields.exercise_type@.len() > 0 ==> exercise_type_named(fields.exercise_type@) is Some)),
        res matches Ok(r) ==> {
            let position = if fields.fen@.len() > 0 { Some(PositionSource { fen: Some(fields.fen), generator: None }) } else { None };
            &&& r.mode == mode_named(fields.mode@)->0
            &&& r.difficulty == difficulty_named(fields.difficulty@)->0
            &&& r.piece == (if fields.piece@.len() > 0 { piece_named(fields.piece@) } else { None })
            &&& r.position == position
            &&& r.exercise == (if fields.exercise_type@.len() > 0 {
                Some(ExerciseConfig {
                    exercise_type: exercise_type_named(fields.exercise_type@)->0,
                    difficulty: difficulty_named(fields.difficulty@)->0,
                    max_moves: if fields.max_moves > 0 { Some(fields.max_moves as u16) } else { None },
                    position,
                    objective: None,
                    rules: ExerciseRules { allow_undo: false, show_legal_moves: true, show_check: true, move_limit: 256 },
                    opponent: None,
                })
            } else {
                None
            })
            &&& r.config == (TrainingConfig {
                show_legal_moves: true,
                number_of_tasks: 1,
                target: if fields.target@.len() > 0 { Some(fields.target) } else { None },
            })
            &&& r.objective is None
            &&& r.player_color == Some(Color::White)
            &&& r.opponent == (if r.mode == SessionMode::FullGame { Some(OpponentConfig::Engine { difficulty: 2 }) } else { None })
        },
{
    let mode = if fields.mode == String::from_str("piece_training") {
        SessionMode::PieceTraining
    } else if fields.mode == String::from_str("full_game") {
        SessionMode::FullGame
    } else if fields.mode == String::from_str("free_play") {
        SessionMode::FreePlay
    } else if fields.mode == String::from_str("") || fields.mode == String::from_str("exercise") {
        SessionMode::Exercise
    } else {
        return Err(InvalidArgument { message: String::from_str("unknown mode: ").concat(fields.mode.as_str()) });
    };
    let difficulty = match parse_difficulty(fields.difficulty.as_str()) {
        Ok(d) => d,
        Err(e) => return Err(e),
    };
    let piece = if fields.piece.as_str().unicode_len() > 0 {
        match parse_piece(fields.piece.as_str()) {
            Ok(p) => Some(p),
            Err(e) => return Err(e),
        }
    } else {
        None
    };
    let exercise_type = if fields.exercise_type.as_str().unicode_len() > 0 {
        match parse_exercise_type(fields.exercise_type.as_str()) {
            Ok(t) => Some(t),
            Err(e) => return Err(e),
        }
    } else {
        None
    };
    let has_fen = fields.fen.as_str().unicode_len() > 0;
    let position = if has_fen {
        Some(PositionSource { fen: Some(fields.fen.clone()), generator: None })
    } else {
        None
    };
    let exercise = match exercise_type {
        Some(exercise_type) => Some(ExerciseConfig {
            exercise_type,
            difficulty,
            max_moves: if fields.max_moves > 0 { Some(fields.max_moves as u16) } else { None },
            position: if has_fen { Some(PositionSource { fen: Some(fields.fen.clone()), generator: None }) } else { None },
            objective: None,
            rules: ExerciseRules::default(),
            opponent: None,
        }),
        None => None,
    };
    let target = if fields.target.as_str().unicode_len() > 0 { Some(fields.target) } else { None };
    let opponent = if mode == SessionMode::FullGame {
        Some(OpponentConfig::Engine { difficulty: 2 })
    } else {
        None
    };
    Ok(
        ExerciseRequest {
            mode,
            exercise,
            piece,
            difficulty,
            config: TrainingConfig { show_legal_moves: true, number_of_tasks: 1, target },
            position,
            objective: None,
            player_color: Some(Color::White),
            opponent,
        },
    )
}

/// A move as the HTTP interface receives it: two square names and an optional
/// promotion piece.
#[derive(Debug, Clone)]
pub struct MoveRequest {
    pub from: String,
    pub to: String,
    pub promotion: Option<Piece>,
}

impl MoveRequest {
    /// The move the request names.
    pub fn chess_move(&self) -> (res: Result<ChessMove, ChessError>)
        ensures
            result_view(res) == new_move_spec(self.from@, self.to@, self.promotion),
    {
        ChessMove::new(self.from.as_str(), self.to.as_str(), self.promotion)
    }
}

/// What a move given as plain fields reads as: an empty promotion is none, another
/// must name a piece, and the squares and piece must make a move.
pub open spec fn fields_move_spec(from: Seq<char>, to: Seq<char>, promotion: Seq<char>) -> Result<MoveView, Seq<char>> {
    if promotion.len() > 0 && piece_named(promotion) is None {
        Err("unknown piece"@)
    } else {
        let piece = if promotion.len() > 0 { piece_named(promotion) } else { None };
        match new_move_spec(from, to, piece) {
            Ok(m) => Ok(m),
            Err(f) => Err(fault_text(f)),
        }
    }
}

/// Reads a move given as plain fields; a refusal carries its reason.
pub fn move_from_fields(from: &str, to: &str, promotion: &str) -> (res: Result<ChessMove, InvalidArgument>)
    ensures
        match fields_move_spec(from@, to@, promotion@) {
            Ok(m) => res matches Ok(r) && r@ == m,
            Err(message) => res matches Err(e) && e.message@ == message,
        },
{
    let piece = if promotion.unicode_len() == 0 {
        None
    } else {
        match parse_piece(promotion) {
            Ok(p) => Some(p),
            Err(e) => return Err(e),
        }
    };
    match ChessMove::new(from, to, piece) {
        Ok(m) => Ok(m),
        Err(error) => Err(InvalidArgument { message: error.message() }),
    }
}

} // verus!
