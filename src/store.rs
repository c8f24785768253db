//! A session's durable mirror: the flat field map kept under the session's
//! key in a key-value store.
use vstd::prelude::*;

use crate::decimal::{decimal, parse_u32, parse_u32_spec, to_decimal};
use crate::errors::ApiError;
use crate::json::entries_view;
use crate::session::{SessionData, SessionView};
use crate::song::{songs_from_json, songs_json, songs_of_json, songs_to_json};

verus! {

/// The store key of the session `id`.
pub open spec fn key_of(id: Seq<char>) -> Seq<char> {
    "session:"@ + id
}

/// The fields that mirror a session state, in the order they are written.
pub open spec fn fields_of(s: SessionView) -> Seq<(Seq<char>, Seq<char>)> {
    seq![
        ("current_song"@, decimal(s.current_song)),
        ("songs"@, songs_json(s.songs)),
        ("users"@, decimal(s.users)),
    ]
}

/// The session state after reading one stored field: a known field whose
/// value does not parse spoils the state; unknown fields are skipped.
pub open spec fn read_field(s: SessionView, f: (Seq<char>, Seq<char>)) -> Option<SessionView> {
    if f.0 == "current_song"@ {
        match parse_u32_spec(f.1) {
            Some(n) => Some(SessionView { current_song: n as nat, ..s }),
            None => None,
        }
    } else if f.0 == "songs"@ {
        match songs_of_json(f.1) {
            Some(q) => Some(SessionView { songs: q, ..s }),
            None => None,
        }
    } else if f.0 == "users"@ {
        match parse_u32_spec(f.1) {
            Some(n) => Some(SessionView { users: n as nat, ..s }),
            None => None,
        }
    } else {
        Some(s)
    }
}

/// The session state that stored fields describe, read in order from an
/// empty state, so that a later field overrides an earlier one.
pub open spec fn session_of_fields(f: Seq<(Seq<char>, Seq<char>)>) -> Option<SessionView>
    decreases f.len(),
{
    if f.len() == 0 {
        Some(SessionView { current_song: 0, songs: Seq::empty(), users: 0 })
    } else {
        match session_of_fields(f.drop_last()) {
            Some(s) => read_field(s, f.last()),
            None => None,
        }
    }
}

/// The store key of the session `id`.
pub fn session_key(id: &str) -> (r: String)
    ensures
        r@ == key_of(id@),
{
    proof {
        reveal_strlit("session:");
    }
    let mut key = String::from_str("session:");
    key.append(id);
    key
}

/// A pair of texts, made from a literal and an owned text.
fn field(name: &str, value: String) -> (r: (String, String))
    ensures
        r.0@ == name@,
        r.1@ == value@,
{
    (String::from_str(name), value)
}

impl SessionData {
    /// The fields that mirror this state in the store.
    pub fn as_vec(&self) -> (r: Vec<(String, String)>)
        ensures
            entries_view(r@) == fields_of(self@),
    {
        proof {
            reveal_strlit("current_song");
            reveal_strlit("songs");
            reveal_strlit("users");
        }
        let mut v: Vec<(String, String)> = Vec::new();
        v.push(field("current_song", to_decimal(self.current_song as u64)));
        v.push(field("songs", songs_to_json(&self.songs)));
        v.push(field("users", to_decimal(self.users as u64)));
        assert(entries_view(v@) =~= fields_of(self@));
        v
    }

    /// Reads one stored field into this state; `false`, with the state
    /// left in an unspecified shape, when a known field does not parse.
    fn read_field(&mut self, key: &String, value: &String) -> (ok: bool)
        ensures
            ok == (read_field(old(self)@, (key@, value@)) is Some),
            ok ==> read_field(old(self)@, (key@, value@)) == Some(final(self)@),
    {
        proof {
            reveal_strlit("current_song");
            reveal_strlit("songs");
            reveal_strlit("users");
        }
        if *key == String::from_str("current_song") {
            match parse_u32(value.as_str()) {
                Some(n) => {
                    self.current_song = n;
                    true
                },
                None => false,
            }
        } else if *key == String::from_str("songs") {
            match songs_from_json(value.as_str()) {
                Some(q) => {
                    self.songs = q;
                    true
                },
                None => false,
            }
        } else if *key == String::from_str("users") {
            match parse_u32(value.as_str()) {
                Some(n) => {
                    self.users = n;
                    true
                },
                None => false,
            }
        } else {
            true
        }
    }

    /// The state that stored fields describe; `None` when a known field
    /// does not parse.
    pub fn from_vec(v: Vec<(String, String)>) -> (r: Option<SessionData>)
        ensures
            match r {
                Some(d) => session_of_fields(entries_view(v@)) == Some(d@),
                None => session_of_fields(entries_view(v@)) is None,
            },
    {
        let mut data = SessionData::new();
        let ghost f = entries_view(v@);
        assert(f.subrange(0, 0) =~= Seq::<(Seq<char>, Seq<char>)>::empty());
        assert(data@.songs =~= Seq::empty());
        let mut i: usize = 0;
        while i < v.len()
            invariant
                i <= v@.len(),
                f == entries_view(v@),
                session_of_fields(f.subrange(0, i as int)) == Some(data@),
            decreases v@.len() - i,
        {
            let ghost sub = f.subrange(0, i + 1);
            assert(sub.drop_last() =~= f.subrange(0, i as int));
            assert(sub.last() == (v@[i as int].0@, v@[i as int].1@));
            if !data.read_field(&v[i].0, &v[i].1) {
                proof {
                    lemma_fields_prefix(f, i + 1);
                }
                return None;
            }
            i += 1;
        }
        assert(f.subrange(0, v@.len() as int) =~= f);
        Some(data)
    }
}

/// Fields whose prefix does not describe a state describe none.
proof fn lemma_fields_prefix(f: Seq<(Seq<char>, Seq<char>)>, n: int)
    requires
        0 <= n <= f.len(),
        session_of_fields(f.subrange(0, n)) is None,
    ensures
        session_of_fields(f) is None,
    decreases f.len() - n,
{
    if n < f.len() {
        assert(f.subrange(0, n + 1).drop_last() =~= f.subrange(0, n));
        lemma_fields_prefix(f, n + 1);
    } else {
        assert(f.subrange(0, n) =~= f);
    }
}

/// The state of a session read from its stored fields: no fields means the
/// session does not exist, and unreadable fields are reported the same way.
pub fn get_session_data(fields: Vec<(String, String)>) -> (r: Result<SessionData, ApiError>)
    ensures
        match r {
            Ok(d) => fields@.len() > 0 && session_of_fields(entries_view(fields@)) == Some(d@),
            Err(e) => e == ApiError::InvalidSession && (fields@.len() == 0 || session_of_fields(
                entries_view(fields@),
            ) is None),
        },
{
    if fields.len() == 0 {
        return Err(ApiError::InvalidSession);
    }
    match SessionData::from_vec(fields) {
        Some(d) => Ok(d),
        None => Err(ApiError::InvalidSession),
    }
}

} // verus!
