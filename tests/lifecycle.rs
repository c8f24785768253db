use jukebox_session::connection::{
    create_session_fields, created_response, join_session, leave_session, Departure,
};
use jukebox_session::errors::ApiError;
use jukebox_session::hub::{Delivery, Hub, SinkData};
use jukebox_session::packet::{Packet, PacketKind};
use jukebox_session::session::{handle_packet, Reply, SessionData};
use jukebox_session::song::SongDetails;
use jukebox_session::store::{get_session_data, session_key};
use jukebox_session::youtube::{song_details_from_video, FormatInfo, VideoInfo};

fn pairs(v: &[(&str, &str)]) -> Vec<(String, String)> {
    v.iter().map(|(k, x)| (k.to_string(), x.to_string())).collect()
}

fn song(id: &str) -> SongDetails {
    SongDetails {
        id: id.to_string(),
        title: id.to_uppercase(),
        thumbnail: format!("https://img/{id}"),
        audio: format!("https://audio/{id}"),
    }
}

fn message(d: Delivery) -> String {
    match d {
        Delivery::Message(m) => m,
        other => panic!("expected a message, got {other:?}"),
    }
}

#[test]
fn session_key_prefixes_id() {
    assert_eq!(session_key("abc"), "session:abc");
}

#[test]
fn as_vec_lists_three_fields() {
    let mut data = SessionData::new();
    data.current_song = 3;
    data.users = 2;
    assert_eq!(
        data.as_vec(),
        pairs(&[("current_song", "3"), ("songs", "[]"), ("users", "2")])
    );
}

#[test]
fn from_vec_reads_back_as_vec() {
    let mut data = SessionData::new();
    data.add_song(Some(song("a")));
    data.add_song(Some(song("b")));
    data.forward_skip();
    data.join();
    let back = SessionData::from_vec(data.as_vec()).unwrap();
    assert_eq!(back.current_song, 1);
    assert_eq!(back.users, 1);
    assert_eq!(back.songs.len(), 2);
    assert_eq!(back.songs[1].id, "b");
    assert_eq!(back.songs[0].audio, "https://audio/a");
}

#[test]
fn from_vec_later_field_wins_and_unknown_skipped() {
    let v = pairs(&[("users", "1"), ("colour", "red"), ("users", "4")]);
    let data = SessionData::from_vec(v).unwrap();
    assert_eq!(data.users, 4);
    assert_eq!(data.current_song, 0);
    assert!(data.songs.is_empty());
}

#[test]
fn from_vec_rejects_unparsable_field() {
    assert!(SessionData::from_vec(pairs(&[("users", "many")])).is_none());
    assert!(SessionData::from_vec(pairs(&[("songs", "[1]")])).is_none());
}

#[test]
fn get_session_data_of_missing_session() {
    assert_eq!(get_session_data(vec![]).unwrap_err(), ApiError::InvalidSession);
    assert_eq!(
        get_session_data(pairs(&[("current_song", "x")])).unwrap_err(),
        ApiError::InvalidSession
    );
}

#[test]
fn created_session_response_and_fields() {
    assert_eq!(created_response("1234-ab"), r#"{"id":"1234-ab"}"#);
    assert_eq!(
        create_session_fields(),
        pairs(&[("current_song", "0"), ("songs", "[]"), ("users", "0")])
    );
}

#[test]
fn join_counts_user_and_seeds_snapshot() {
    let joined = join_session(create_session_fields()).unwrap();
    assert_eq!(joined.data.users, 1);
    assert_eq!(
        joined.fields,
        pairs(&[("current_song", "0"), ("songs", "[]"), ("users", "1")])
    );
    assert_eq!(joined.songs_packet, r#"{"kind":"SetSongs","data":"[]"}"#);
    assert_eq!(joined.position_packet, r#"{"kind":"SetCurrentSong","data":"0"}"#);
}

#[test]
fn join_nonexistent_session_fails() {
    assert_eq!(join_session(vec![]).unwrap_err(), ApiError::InvalidSession);
}

#[test]
fn leave_persists_or_deletes() {
    let two = pairs(&[("current_song", "0"), ("songs", "[]"), ("users", "2")]);
    match leave_session(two).unwrap() {
        Departure::Persist(f) => {
            assert_eq!(f, pairs(&[("current_song", "0"), ("songs", "[]"), ("users", "1")]))
        }
        Departure::Delete => panic!("one participant is still there"),
    }
    let one = pairs(&[("current_song", "0"), ("songs", "[]"), ("users", "1")]);
    assert!(matches!(leave_session(one).unwrap(), Departure::Delete));
    assert_eq!(leave_session(vec![]).unwrap_err(), ApiError::InvalidSession);
}

#[test]
fn last_participant_leaving_deletes_and_rejoin_fails() {
    let mut store: Option<Vec<(String, String)>> = Some(create_session_fields());
    let joined = join_session(store.take().unwrap()).unwrap();
    store = Some(joined.fields);
    match leave_session(store.take().unwrap()).unwrap() {
        Departure::Delete => store = None,
        Departure::Persist(f) => store = Some(f),
    }
    assert!(store.is_none());
    let fields = store.unwrap_or_default();
    assert_eq!(join_session(fields).unwrap_err(), ApiError::InvalidSession);
}

#[test]
fn create_join_add_broadcasts_set_songs() {
    let mut hub = Hub::new(32);
    let joined = join_session(create_session_fields()).unwrap();
    let mut data = joined.data;
    let first = hub.subscribe("s1");
    let second = hub.subscribe("s1");
    let add = Packet { kind: PacketKind::AddSong, data: "a".to_string() };
    let reply = handle_packet(&mut data, &add, Some(song("a")));
    assert_eq!(reply, Reply::QueueUpdated);
    let text = data.reply_packet(reply).unwrap();
    hub.publish(&SinkData::new("s1", text.clone()));
    let expected = r#"{"kind":"SetSongs","data":"[{\"id\":\"a\",\"title\":\"A\",\"thumbnail\":\"https://img/a\",\"audio\":\"https://audio/a\"}]"}"#;
    assert_eq!(text, expected);
    assert_eq!(message(hub.recv(first)), expected);
    assert_eq!(message(hub.recv(second)), expected);
}

#[test]
fn hub_isolates_sessions() {
    let mut hub = Hub::new(4);
    let a = hub.subscribe("a");
    let b = hub.subscribe("b");
    hub.publish(&SinkData::new("a", "for a".to_string()));
    assert_eq!(message(hub.recv(a)), "for a");
    assert!(matches!(hub.recv(b), Delivery::Empty));
    assert!(matches!(hub.recv(a), Delivery::Empty));
}

#[test]
fn hub_unsubscribed_gets_nothing() {
    let mut hub = Hub::new(4);
    let a = hub.subscribe("a");
    hub.unsubscribe(a);
    hub.publish(&SinkData::new("a", "x".to_string()));
    assert!(matches!(hub.recv(a), Delivery::Empty));
}

#[test]
fn slow_subscriber_lags_but_sees_final_queue() {
    let mut hub = Hub::new(2);
    let slow = hub.subscribe("s");
    for i in 0..5 {
        hub.publish(&SinkData::new("s", format!("update {i}")));
    }
    assert!(matches!(hub.recv(slow), Delivery::Lagged));
    assert_eq!(message(hub.recv(slow)), "update 3");
    assert_eq!(message(hub.recv(slow)), "update 4");
    assert!(matches!(hub.recv(slow), Delivery::Empty));
}

#[test]
fn sink_data_new_keeps_fields() {
    let d = SinkData::new("s", "body".to_string());
    assert_eq!(d.session, "s");
    assert_eq!(d.body, "body");
}

fn format(id: Option<&str>, url: Option<&str>) -> FormatInfo {
    FormatInfo { format_id: id.map(|s| s.to_string()), url: url.map(|s| s.to_string()) }
}

#[test]
fn video_with_audio_format_becomes_song() {
    let video = VideoInfo {
        id: "vid".to_string(),
        title: "Title".to_string(),
        thumbnail: Some("thumb".to_string()),
        formats: Some(vec![
            format(Some("140"), Some("u140")),
            format(None, Some("unnamed")),
            format(Some("251"), Some("u251")),
            format(Some("251"), Some("second")),
        ]),
    };
    let s = song_details_from_video(video).unwrap();
    assert_eq!(s.id, "vid");
    assert_eq!(s.title, "Title");
    assert_eq!(s.thumbnail, "thumb");
    assert_eq!(s.audio, "u251");
}

#[test]
fn video_without_audio_format_is_invalid_song() {
    let base = |formats, thumbnail: Option<&str>| VideoInfo {
        id: "v".to_string(),
        title: "t".to_string(),
        thumbnail: thumbnail.map(|s| s.to_string()),
        formats,
    };
    assert_eq!(
        song_details_from_video(base(Some(vec![format(Some("140"), Some("u"))]), Some("th"))).unwrap_err(),
        ApiError::InvalidSong
    );
    assert_eq!(
        song_details_from_video(base(Some(vec![format(Some("251"), None)]), Some("th"))).unwrap_err(),
        ApiError::InvalidSong
    );
    assert_eq!(song_details_from_video(base(None, Some("th"))).unwrap_err(), ApiError::InvalidSong);
    assert_eq!(
        song_details_from_video(base(Some(vec![format(Some("251"), Some("u"))]), None)).unwrap_err(),
        ApiError::InvalidSong
    );
}
