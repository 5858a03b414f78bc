//! In-memory session storage over `dashmap`, keyed by the session id.
use vstd::prelude::*;

use crate::session::{ChessSession, SessionView};

verus! {

/// `dashmap::DashMap`, declared so that the repository can hold one.
#[verifier::external_type_specification]
#[verifier::external_body]
#[verifier::reject_recursive_types(K)]
#[verifier::reject_recursive_types(V)]
#[verifier::reject_recursive_types(S)]
pub struct ExDashMap<K, V, S>(dashmap::DashMap<K, V, S>);

/// The map that holds sessions by id.
pub type SessionMap = dashmap::DashMap<u128, ChessSession>;

/// The sessions a `DashMap` holds, by id.
pub uninterp spec fn stored(map: dashmap::DashMap<u128, ChessSession>) -> Map<u128, SessionView>;

/// Why storage failed, as data for contracts.
pub ghost enum RepositoryFault {
    Storage(Seq<char>),
}

/// Errors of session storage.
#[derive(Debug)]
pub enum RepositoryError {
    Storage(String),
}

impl View for RepositoryError {
    type V = RepositoryFault;

    open spec fn view(&self) -> RepositoryFault {
        match self {
            RepositoryError::Storage(s) => RepositoryFault::Storage(s@),
        }
    }
}

/// No stored sessions.
pub open spec fn no_sessions() -> Map<u128, SessionView> {
    Map::empty()
}

/// `DashMap::new`: an empty map.
#[verifier::external_body]
fn empty_map() -> (res: SessionMap)
    ensures
        stored(res) == no_sessions(),
{
    dashmap::DashMap::new()
}

/// `DashMap::get`, cloning the stored session (a deep copy).
#[verifier::external_body]
fn map_get(map: &SessionMap, id: u128) -> (res: Option<ChessSession>)
    ensures
        res is Some <==> stored(*map).contains_key(id),
        res matches Some(s) ==> s@ == stored(*map)[id],
{
    map.get(&id).map(|entry| entry.clone())
}

/// `DashMap::insert`: the session is stored under the id, replacing any other.
#[verifier::external_body]
fn map_insert(map: &mut SessionMap, id: u128, session: ChessSession)
    ensures
        stored(*final(map)) == stored(*old(map)).insert(id, session@),
{
    map.insert(id, session);
}

/// `DashMap::remove`: whether the id was stored; afterwards it is not.
#[verifier::external_body]
fn map_remove(map: &mut SessionMap, id: u128) -> (res: bool)
    ensures
        res == stored(*old(map)).contains_key(id),
        stored(*final(map)) == stored(*old(map)).remove(id),
{
    map.remove(&id).is_some()
}

/// Sessions kept in memory, one per id.
#[derive(Debug)]
pub struct InMemorySessionRepository {
    sessions: SessionMap,
}

impl View for InMemorySessionRepository {
    type V = Map<u128, SessionView>;

    closed spec fn view(&self) -> Map<u128, SessionView> {
        stored(self.sessions)
    }
}

impl Default for InMemorySessionRepository {
    fn default() -> (res: InMemorySessionRepository)
        ensures
            res@ == no_sessions(),
    {
        InMemorySessionRepository { sessions: empty_map() }
    }
}

impl InMemorySessionRepository {
    /// The session stored under an id, if any.
    pub fn get(&self, id: u128) -> (res: Result<Option<ChessSession>, RepositoryError>)
        ensures
            res matches Ok(found) && (found is Some <==> self@.contains_key(id)) && (found matches Some(s)
                ==> s@ == self@[id]),
    {
        Ok(map_get(&self.sessions, id))
    }

    /// Stores a session under its id.
    pub fn save(&mut self, session: ChessSession) -> (res: Result<(), RepositoryError>)
        ensures
            res is Ok,
            final(self)@ == old(self)@.insert(session.id, session@),
    {
        let id = session.id;
        map_insert(&mut self.sessions, id, session);
        Ok(())
    }

    /// Removes the session stored under an id; says whether there was one.
    pub fn delete(&mut self, id: u128) -> (res: Result<bool, RepositoryError>)
        ensures
            res matches Ok(found) && found == old(self)@.contains_key(id),
            final(self)@ == old(self)@.remove(id),
    {
        Ok(map_remove(&mut self.sessions, id))
    }
}

/// A read gives back the last session saved under the same id.
pub proof fn law_read_after_save(before: Map<u128, SessionView>, saved: SessionView, id: u128)
    ensures
        before.insert(id, saved).contains_key(id),
        before.insert(id, saved)[id] == saved,
{
}

/// Saving or deleting one session leaves every other session as it was.
pub proof fn law_sessions_isolated(before: Map<u128, SessionView>, saved: SessionView, id: u128, other: u128)
    requires
        other != id,
    ensures
        before.insert(id, saved).contains_key(other) == before.contains_key(other),
        before.insert(id, saved).contains_key(other) ==> before.insert(id, saved)[other] == before[other],
        before.remove(id).contains_key(other) == before.contains_key(other),
        before.remove(id).contains_key(other) ==> before.remove(id)[other] == before[other],
{
}

/// After a delete the session is gone, and a second delete finds nothing.
pub proof fn law_delete_removes(before: Map<u128, SessionView>, id: u128)
    ensures
        !before.remove(id).contains_key(id),
        !before.remove(id).remove(id).contains_key(id),
{
}

} // verus!
