use jukebox_session::decimal::{parse_u32, to_decimal};
use jukebox_session::errors::ApiError;
use jukebox_session::json::find_entry;
use jukebox_session::packet::{DecodeError, Packet, PacketData, PacketKind};
use jukebox_session::song::{songs_from_json, songs_to_json, SongDetails};

#[test]
fn decimal_text_of_numbers() {
    assert_eq!(to_decimal(0), "0");
    assert_eq!(to_decimal(7), "7");
    assert_eq!(to_decimal(1234), "1234");
    assert_eq!(to_decimal(u32::MAX as u64), "4294967295");
}

#[test]
fn parse_u32_reads_decimal() {
    assert_eq!(parse_u32("0"), Some(0));
    assert_eq!(parse_u32("42"), Some(42));
    assert_eq!(parse_u32("+42"), Some(42));
    assert_eq!(parse_u32("007"), Some(7));
    assert_eq!(parse_u32("4294967295"), Some(u32::MAX));
}

#[test]
fn parse_u32_rejects_bad_text() {
    assert_eq!(parse_u32(""), None);
    assert_eq!(parse_u32("+"), None);
    assert_eq!(parse_u32("-1"), None);
    assert_eq!(parse_u32("12a"), None);
    assert_eq!(parse_u32("4294967296"), None);
    assert_eq!(parse_u32("99999999999999999999"), None);
}

#[test]
fn kind_tags_round_trip() {
    let kinds = [
        PacketKind::AddSong,
        PacketKind::RemoveSong,
        PacketKind::ForwardSkip,
        PacketKind::BackwardSkip,
        PacketKind::Error,
        PacketKind::SetSongs,
        PacketKind::SetCurrentSong,
    ];
    for k in kinds {
        assert_eq!(PacketKind::from_tag(&k.tag().to_string()), Some(k));
    }
    assert_eq!(PacketKind::from_tag(&"Play".to_string()), None);
}

#[test]
fn serialized_str_escapes_payload() {
    let text = Packet::serialized_str(PacketKind::Error, "say \"hi\"\n".to_string());
    assert_eq!(text, r#"{"kind":"Error","data":"say \"hi\"\n"}"#);
}

#[test]
fn serialized_index_payload() {
    let text = Packet::serialized(PacketKind::SetCurrentSong, &PacketData::Index(12));
    assert_eq!(text, r#"{"kind":"SetCurrentSong","data":"12"}"#);
}

#[test]
fn serialized_empty_queue() {
    let text = Packet::serialized(PacketKind::SetSongs, &PacketData::Songs(vec![]));
    assert_eq!(text, r#"{"kind":"SetSongs","data":"[]"}"#);
}

#[test]
fn decode_reads_client_packets() {
    let p = Packet::decode(r#"{"kind":"AddSong","data":"https://example.com/v"}"#).unwrap();
    assert_eq!(p.kind, PacketKind::AddSong);
    assert_eq!(p.data, "https://example.com/v");
    let p = Packet::decode(r#"{"data":"","kind":"ForwardSkip"}"#).unwrap();
    assert_eq!(p.kind, PacketKind::ForwardSkip);
    assert_eq!(p.data, "");
}

#[test]
fn decode_rejects_malformed_text() {
    assert_eq!(Packet::decode("not json").unwrap_err(), DecodeError::Malformed);
    assert_eq!(Packet::decode(r#"{"kind":"Dance","data":""}"#).unwrap_err(), DecodeError::Malformed);
    assert_eq!(Packet::decode(r#"{"kind":"AddSong"}"#).unwrap_err(), DecodeError::Malformed);
    assert_eq!(Packet::decode(r#"{"kind":"AddSong","data":5}"#).unwrap_err(), DecodeError::Malformed);
}

#[test]
fn songs_json_round_trip() {
    let songs = vec![
        SongDetails {
            id: "a".to_string(),
            title: "Quote \" title".to_string(),
            thumbnail: "t".to_string(),
            audio: "u".to_string(),
        },
        SongDetails {
            id: "b".to_string(),
            title: "B".to_string(),
            thumbnail: "t2".to_string(),
            audio: "u2".to_string(),
        },
    ];
    let text = songs_to_json(&songs);
    assert_eq!(
        text,
        r#"[{"id":"a","title":"Quote \" title","thumbnail":"t","audio":"u"},{"id":"b","title":"B","thumbnail":"t2","audio":"u2"}]"#
    );
    let back = songs_from_json(&text).unwrap();
    assert_eq!(back.len(), 2);
    assert_eq!(back[0].title, "Quote \" title");
    assert_eq!(back[1].audio, "u2");
}

#[test]
fn songs_from_json_rejects_incomplete_song() {
    assert!(songs_from_json(r#"[{"id":"a","title":"A"}]"#).is_none());
    assert!(songs_from_json("{}").is_none());
    assert_eq!(songs_from_json("[]").unwrap().len(), 0);
}

#[test]
fn find_entry_takes_first_match() {
    let entries = vec![
        ("k".to_string(), "1".to_string()),
        ("k".to_string(), "2".to_string()),
    ];
    assert_eq!(find_entry(&entries, "k"), Some("1".to_string()));
    assert_eq!(find_entry(&entries, "x"), None);
}

#[test]
fn error_messages_statuses_and_packets() {
    assert_eq!(ApiError::InvalidSession.message(), "Invalid session ID");
    assert_eq!(ApiError::InvalidSong.message(), "Invalid song URL");
    assert_eq!(ApiError::AlreadyInQueue.message(), "Song already in queue");
    assert_eq!(ApiError::InvalidSession.status(), 404);
    assert_eq!(ApiError::InvalidSong.status(), 400);
    assert_eq!(ApiError::AlreadyInQueue.status(), 409);
    assert_eq!(
        ApiError::InvalidSong.as_serialized_packet(),
        r#"{"kind":"Error","data":"Invalid song URL"}"#
    );
}
