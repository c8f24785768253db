//! The decisions a connection makes as it creates, joins and leaves a
//! session, given what the store holds.
use vstd::prelude::*;

use crate::decimal::decimal;
use crate::errors::ApiError;
use crate::json::{entries_view, json_quoted, quote};
use crate::packet::{packet_text, PacketKind};
use crate::session::{SessionData, SessionView};
use crate::song::songs_json;
use crate::store::{fields_of, get_session_data, session_of_fields};

verus! {

/// What joining a session gives: the state after the join, the fields to
/// persist, and the two packets that seed the new participant.
#[derive(Debug)]
pub struct Joined {
    pub data: SessionData,
    pub fields: Vec<(String, String)>,
    pub songs_packet: String,
    pub position_packet: String,
}

/// What the store must do after a participant leaves.
#[derive(Debug)]
pub enum Departure {
    /// The last participant left: delete the session.
    Delete,
    /// Others remain: persist these fields.
    Persist(Vec<(String, String)>),
}

/// The state with one more participant.
pub open spec fn joined_view(s: SessionView) -> SessionView {
    SessionView { users: if s.users < u32::MAX { s.users + 1 } else { s.users }, ..s }
}

/// The reply to a session creation request: a JSON object carrying the new
/// session's identifier.
pub open spec fn created_text(id: Seq<char>) -> Seq<char> {
    "{\"id\":"@ + json_quoted(id) + "}"@
}

/// The fields that a newly created session is stored with.
pub fn create_session_fields() -> (r: Vec<(String, String)>)
    ensures
        entries_view(r@) == fields_of(SessionView { current_song: 0, songs: Seq::empty(), users: 0 }),
{
    let data = SessionData::new();
    assert(data@.songs =~= Seq::empty());
    data.as_vec()
}

/// The reply to a session creation request for the new identifier `id`.
pub fn created_response(id: &str) -> (r: String)
    ensures
        r@ == created_text(id@),
{
    proof {
        reveal_strlit("{\"id\":");
        reveal_strlit("}");
    }
    let mut out = String::from_str("{\"id\":");
    let q = quote(id).unwrap();
    out.append(q.as_str());
    out.append("}");
    out
}

/// Joins the session whose stored fields are `fields`: a session with no
/// readable fields does not exist.
pub fn join_session(fields: Vec<(String, String)>) -> (r: Result<Joined, ApiError>)
    ensures
        match r {
            Ok(j) => {
                let s = session_of_fields(entries_view(fields@))->0;
                &&& fields@.len() > 0
                &&& session_of_fields(entries_view(fields@)) is Some
                &&& j.data@ == joined_view(s)
                &&& entries_view(j.fields@) == fields_of(joined_view(s))
                &&& j.songs_packet@ == packet_text(PacketKind::SetSongs, songs_json(s.songs))
                &&& j.position_packet@ == packet_text(PacketKind::SetCurrentSong, decimal(s.current_song))
            },
            Err(e) => e == ApiError::InvalidSession && (fields@.len() == 0 || session_of_fields(
                entries_view(fields@),
            ) is None),
        },
{
    let mut data = match get_session_data(fields) {
        Ok(d) => d,
        Err(e) => return Err(e),
    };
    data.join();
    let fields = data.as_vec();
    let (songs_packet, position_packet) = data.snapshot_packets();
    Ok(Joined { data, fields, songs_packet, position_packet })
}

/// Leaves the session whose stored fields are `fields`: the last
/// participant out deletes it, otherwise the lowered count is persisted.
pub fn leave_session(fields: Vec<(String, String)>) -> (r: Result<Departure, ApiError>)
    ensures
        match r {
            Ok(Departure::Delete) => {
                &&& fields@.len() > 0
                &&& session_of_fields(entries_view(fields@)) is Some
                &&& session_of_fields(entries_view(fields@))->0.users <= 1
            },
            Ok(Departure::Persist(f)) => {
                let s = session_of_fields(entries_view(fields@))->0;
                &&& fields@.len() > 0
                &&& session_of_fields(entries_view(fields@)) is Some
                &&& s.users > 1
                &&& entries_view(f@) == fields_of(SessionView { users: (s.users - 1) as nat, ..s })
            },
            Err(e) => e == ApiError::InvalidSession && (fields@.len() == 0 || session_of_fields(
                entries_view(fields@),
            ) is None),
        },
{
    let mut data = match get_session_data(fields) {
        Ok(d) => d,
        Err(e) => return Err(e),
    };
    if data.leave() {
        Ok(Departure::Delete)
    } else {
        Ok(Departure::Persist(data.as_vec()))
    }
}

} // verus!
