//! The packets exchanged over a participant's connection, and their JSON
//! text.
use vstd::prelude::*;

use crate::decimal::{decimal, to_decimal};
use crate::json::{json_quoted, json_string_object, lookup, find_entry, parse_string_object, quote};
use crate::song::{songs_json, songs_to_json, songs_view, SongDetails};

verus! {

/// The kind of a packet. Participants send the first four, the server the
/// last three.
#[derive(Debug, Clone, Copy, PartialEq, Eq, Structural)]
pub enum PacketKind {
    AddSong,
    RemoveSong,
    ForwardSkip,
    BackwardSkip,
    Error,
    SetSongs,
    SetCurrentSong,
}

/// A packet: its kind and its text payload.
#[derive(Debug)]
pub struct Packet {
    pub kind: PacketKind,
    pub data: String,
}

/// The reason an inbound text is not a packet.
#[derive(Debug, Clone, Copy, PartialEq, Eq, Structural)]
pub enum DecodeError {
    Malformed,
}

/// The payload of a server packet before it is written as text.
#[derive(Debug)]
pub enum PacketData {
    /// A queue of songs, written as a JSON array.
    Songs(Vec<SongDetails>),
    /// A position in the queue, written in decimal.
    Index(u32),
}

/// The tag that names a packet kind on the wire.
pub open spec fn kind_tag(k: PacketKind) -> Seq<char> {
    match k {
        PacketKind::AddSong => "AddSong"@,
        PacketKind::RemoveSong => "RemoveSong"@,
        PacketKind::ForwardSkip => "ForwardSkip"@,
        PacketKind::BackwardSkip => "BackwardSkip"@,
        PacketKind::Error => "Error"@,
        PacketKind::SetSongs => "SetSongs"@,
        PacketKind::SetCurrentSong => "SetCurrentSong"@,
    }
}

/// The packet kind that a tag names, if any.
pub open spec fn kind_of_tag(t: Seq<char>) -> Option<PacketKind> {
    if t == "AddSong"@ {
        Some(PacketKind::AddSong)
    } else if t == "RemoveSong"@ {
        Some(PacketKind::RemoveSong)
    } else if t == "ForwardSkip"@ {
        Some(PacketKind::ForwardSkip)
    } else if t == "BackwardSkip"@ {
        Some(PacketKind::BackwardSkip)
    } else if t == "Error"@ {
        Some(PacketKind::Error)
    } else if t == "SetSongs"@ {
        Some(PacketKind::SetSongs)
    } else if t == "SetCurrentSong"@ {
        Some(PacketKind::SetCurrentSong)
    } else {
        None
    }
}

/// The text of a packet: a JSON object with the kind's tag and the payload
/// as a JSON string.
pub open spec fn packet_text(k: PacketKind, data: Seq<char>) -> Seq<char> {
    "{\"kind\":\""@ + kind_tag(k) + "\",\"data\":"@ + json_quoted(data) + "}"@
}

/// The text that a payload is written as.
pub open spec fn data_text(d: PacketData) -> Seq<char> {
    match d {
        PacketData::Songs(v) => songs_json(songs_view(v@)),
        PacketData::Index(n) => decimal(n as nat),
    }
}

/// The kind and payload that an inbound text carries: a JSON object of
/// strings with a known tag under `kind` and a payload under `data`.
pub open spec fn decoded(text: Seq<char>) -> Option<(PacketKind, Seq<char>)> {
    match json_string_object(text) {
        Some(e) => match (lookup(e, "kind"@), lookup(e, "data"@)) {
            (Some(t), Some(d)) => match kind_of_tag(t) {
                Some(k) => Some((k, d)),
                None => None,
            },
            _ => None,
        },
        None => None,
    }
}

impl PacketKind {
    /// The tag that names this kind on the wire.
    pub fn tag(&self) -> (r: &'static str)
        ensures
            r@ == kind_tag(*self),
    {
        proof {
            reveal_strlit("AddSong");
            reveal_strlit("RemoveSong");
            reveal_strlit("ForwardSkip");
            reveal_strlit("BackwardSkip");
            reveal_strlit("Error");
            reveal_strlit("SetSongs");
            reveal_strlit("SetCurrentSong");
        }
        match self {
            PacketKind::AddSong => "AddSong",
            PacketKind::RemoveSong => "RemoveSong",
            PacketKind::ForwardSkip => "ForwardSkip",
            PacketKind::BackwardSkip => "BackwardSkip",
            PacketKind::Error => "Error",
            PacketKind::SetSongs => "SetSongs",
            PacketKind::SetCurrentSong => "SetCurrentSong",
        }
    }

    /// The kind that `tag` names, if any.
    pub fn from_tag(tag: &String) -> (r: Option<PacketKind>)
        ensures
            r == kind_of_tag(tag@),
    {
        let kinds = [
            PacketKind::AddSong,
            PacketKind::RemoveSong,
            PacketKind::ForwardSkip,
            PacketKind::BackwardSkip,
            PacketKind::Error,
            PacketKind::SetSongs,
            PacketKind::SetCurrentSong,
        ];
        let mut i: usize = 0;
        while i < 7
            invariant
                0 <= i <= 7,
                kinds@ == seq![
                    PacketKind::AddSong,
                    PacketKind::RemoveSong,
                    PacketKind::ForwardSkip,
                    PacketKind::BackwardSkip,
                    PacketKind::Error,
                    PacketKind::SetSongs,
                    PacketKind::SetCurrentSong,
                ],
                forall|k: int| 0 <= k < i ==> tag@ != kind_tag(#[trigger] kinds@[k]),
            decreases 7 - i,
        {
            let candidate = String::from_str(kinds[i].tag());
            if candidate == *tag {
                return Some(kinds[i]);
            }
            i += 1;
        }
        assert(tag@ != kind_tag(kinds@[0]));
        assert(tag@ != kind_tag(kinds@[1]));
        assert(tag@ != kind_tag(kinds@[2]));
        assert(tag@ != kind_tag(kinds@[3]));
        assert(tag@ != kind_tag(kinds@[4]));
        assert(tag@ != kind_tag(kinds@[5]));
        assert(tag@ != kind_tag(kinds@[6]));
        None
    }
}

impl Packet {
    /// The text of a packet of kind `kind` whose payload is `data` as it
    /// stands.
    pub fn serialized_str(kind: PacketKind, data: String) -> (r: String)
        ensures
            r@ == packet_text(kind, data@),
    {
        proof {
            reveal_strlit("{\"kind\":\"");
            reveal_strlit("\",\"data\":");
            reveal_strlit("}");
        }
        let mut out = String::from_str("{\"kind\":\"");
        out.append(kind.tag());
        out.append("\",\"data\":");
        let q = quote(data.as_str()).unwrap();
        out.append(q.as_str());
        out.append("}");
        assert(out@ =~= packet_text(kind, data@));
        out
    }

    /// The text of a packet of kind `kind` whose payload is `data`, written
    /// as JSON or decimal text first.
    pub fn serialized(kind: PacketKind, data: &PacketData) -> (r: String)
        ensures
            r@ == packet_text(kind, data_text(*data)),
    {
        let text = match data {
            PacketData::Songs(v) => songs_to_json(v),
            PacketData::Index(n) => to_decimal(*n as u64),
        };
        Packet::serialized_str(kind, text)
    }

    /// Reads a packet from its text. A text that is not a JSON object of
    /// strings, lacks `kind` or `data`, or names an unknown kind is
    /// malformed.
    pub fn decode(text: &str) -> (r: Result<Packet, DecodeError>)
        ensures
            match r {
                Ok(p) => decoded(text@) == Some((p.kind, p.data@)),
                Err(e) => decoded(text@) is None && e == DecodeError::Malformed,
            },
    {
        proof {
            reveal_strlit("kind");
            reveal_strlit("data");
        }
        let entries = match parse_string_object(text) {
            Some(e) => e,
            None => return Err(DecodeError::Malformed),
        };
        let tag = find_entry(&entries, "kind");
        let data = find_entry(&entries, "data");
        match (tag, data) {
            (Some(t), Some(d)) => match PacketKind::from_tag(&t) {
                Some(kind) => Ok(Packet { kind, data: d }),
                None => Err(DecodeError::Malformed),
            },
            _ => Err(DecodeError::Malformed),
        }
    }
}

} // verus!
