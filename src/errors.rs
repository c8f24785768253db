use vstd::prelude::*;

use crate::packet::{packet_text, Packet, PacketKind};

verus! {

/// The user-visible failures of a session operation.
#[derive(Debug, Clone, Copy, PartialEq, Eq, Structural)]
pub enum ApiError {
    /// The session identifier names no stored session.
    InvalidSession,
    /// The song reference could not be resolved to a playable song.
    InvalidSong,
    /// A song with the same identifier is already queued.
    AlreadyInQueue,
}

/// The human-readable message of each error.
pub open spec fn error_message(e: ApiError) -> Seq<char> {
    match e {
        ApiError::InvalidSession => "Invalid session ID"@,
        ApiError::InvalidSong => "Invalid song URL"@,
        ApiError::AlreadyInQueue => "Song already in queue"@,
    }
}

/// The HTTP status code that each error maps to.
pub open spec fn error_status(e: ApiError) -> u16 {
    match e {
        ApiError::InvalidSession => 404,
        ApiError::InvalidSong => 400,
        ApiError::AlreadyInQueue => 409,
    }
}

impl ApiError {
    /// The message shown to the user for this error.
    pub fn message(&self) -> (r: String)
        ensures
            r@ == error_message(*self),
    {
        let text: &str = match self {
            ApiError::InvalidSession => "Invalid session ID",
            ApiError::InvalidSong => "Invalid song URL",
            ApiError::AlreadyInQueue => "Song already in queue",
        };
        proof {
            reveal_strlit("Invalid session ID");
            reveal_strlit("Invalid song URL");
            reveal_strlit("Song already in queue");
        }
        String::from_str(text)
    }

    /// The text of the `Error` packet that reports this error to the
    /// participant whose command failed.
    pub fn as_serialized_packet(&self) -> (r: String)
        ensures
            r@ == packet_text(PacketKind::Error, error_message(*self)),
    {
        Packet::serialized_str(PacketKind::Error, self.message())
    }

    /// The HTTP status code for this error: not found, bad request, conflict.
    pub fn status(&self) -> (r: u16)
        ensures
            r == error_status(*self),
    {
        match self {
            ApiError::InvalidSession => 404,
            ApiError::InvalidSong => 400,
            ApiError::AlreadyInQueue => 409,
        }
    }
}

} // verus!
