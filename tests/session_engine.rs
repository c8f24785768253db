use jukebox_session::errors::ApiError;
use jukebox_session::packet::{Packet, PacketKind};
use jukebox_session::session::{handle_packet, Command, Reply, SessionActor, SessionData};
use jukebox_session::song::SongDetails;

fn song(id: &str) -> SongDetails {
    SongDetails {
        id: id.to_string(),
        title: format!("title {id}"),
        thumbnail: format!("thumb {id}"),
        audio: format!("audio {id}"),
    }
}

fn ids(data: &SessionData) -> Vec<String> {
    data.songs.iter().map(|s| s.id.clone()).collect()
}

#[test]
fn new_session_is_empty() {
    let data = SessionData::new();
    assert_eq!(data.current_song, 0);
    assert!(data.songs.is_empty());
    assert_eq!(data.users, 0);
}

#[test]
fn add_song_appends_in_order() {
    let mut data = SessionData::new();
    assert_eq!(data.add_song(Some(song("a"))), Reply::QueueUpdated);
    assert_eq!(data.add_song(Some(song("b"))), Reply::QueueUpdated);
    assert_eq!(ids(&data), vec!["a", "b"]);
    assert_eq!(data.songs[1].title, "title b");
}

#[test]
fn add_unresolved_song_fails_invalid_song() {
    let mut data = SessionData::new();
    assert_eq!(data.add_song(None), Reply::Failed(ApiError::InvalidSong));
    assert!(data.songs.is_empty());
}

#[test]
fn duplicate_add_is_rejected_without_change() {
    let mut data = SessionData::new();
    data.add_song(Some(song("a")));
    data.add_song(Some(song("b")));
    let mut other = song("a");
    other.title = "another title".to_string();
    assert_eq!(data.add_song(Some(other)), Reply::Failed(ApiError::AlreadyInQueue));
    assert_eq!(ids(&data), vec!["a", "b"]);
    assert_eq!(data.songs[0].title, "title a");
}

#[test]
fn remove_song_keeps_order_of_the_rest() {
    let mut data = SessionData::new();
    for id in ["a", "b", "c"] {
        data.add_song(Some(song(id)));
    }
    assert_eq!(data.remove_song(&"b".to_string()), Reply::QueueUpdated);
    assert_eq!(ids(&data), vec!["a", "c"]);
}

#[test]
fn remove_absent_song_twice_is_idempotent() {
    let mut data = SessionData::new();
    data.add_song(Some(song("a")));
    assert_eq!(data.remove_song(&"x".to_string()), Reply::QueueUpdated);
    let first = ids(&data);
    assert_eq!(data.remove_song(&"x".to_string()), Reply::QueueUpdated);
    assert_eq!(ids(&data), first);
    assert_eq!(first, vec!["a"]);
}

#[test]
fn forward_skip_at_last_song_is_silent() {
    let mut data = SessionData::new();
    data.add_song(Some(song("a")));
    data.add_song(Some(song("b")));
    assert_eq!(data.forward_skip(), Reply::PositionUpdated);
    assert_eq!(data.current_song, 1);
    assert_eq!(data.forward_skip(), Reply::Silent);
    assert_eq!(data.current_song, 1);
}

#[test]
fn backward_skip_at_first_song_is_silent() {
    let mut data = SessionData::new();
    data.add_song(Some(song("a")));
    assert_eq!(data.backward_skip(), Reply::Silent);
    assert_eq!(data.current_song, 0);
    data.add_song(Some(song("b")));
    data.forward_skip();
    assert_eq!(data.backward_skip(), Reply::PositionUpdated);
    assert_eq!(data.current_song, 0);
}

#[test]
fn forward_skip_on_empty_queue_is_silent() {
    let mut data = SessionData::new();
    assert_eq!(data.forward_skip(), Reply::Silent);
    assert_eq!(data.current_song, 0);
}

#[test]
fn handle_packet_dispatches_by_kind() {
    let mut data = SessionData::new();
    let add = Packet { kind: PacketKind::AddSong, data: "https://example.com/a".to_string() };
    assert_eq!(handle_packet(&mut data, &add, Some(song("a"))), Reply::QueueUpdated);
    let remove = Packet { kind: PacketKind::RemoveSong, data: "a".to_string() };
    assert_eq!(handle_packet(&mut data, &remove, None), Reply::QueueUpdated);
    assert!(data.songs.is_empty());
    let server = Packet { kind: PacketKind::SetSongs, data: "[]".to_string() };
    assert_eq!(handle_packet(&mut data, &server, Some(song("z"))), Reply::Silent);
    assert!(data.songs.is_empty());
}

#[test]
fn join_and_leave_count_participants() {
    let mut data = SessionData::new();
    data.join();
    data.join();
    assert_eq!(data.users, 2);
    assert!(!data.leave());
    assert_eq!(data.users, 1);
    assert!(data.leave());
    assert_eq!(data.users, 0);
}

#[test]
fn join_saturates_at_largest_count() {
    let mut data = SessionData::new();
    data.users = u32::MAX;
    data.join();
    assert_eq!(data.users, u32::MAX);
}

#[test]
fn actor_applies_commands_in_submission_order() {
    let mut actor = SessionActor::new(SessionData::new());
    actor.submit(Command::AddSong(Some(song("a"))));
    actor.submit(Command::AddSong(Some(song("a"))));
    actor.submit(Command::AddSong(Some(song("b"))));
    actor.submit(Command::ForwardSkip);
    actor.submit(Command::RemoveSong("a".to_string()));
    let replies = actor.drain();
    assert_eq!(
        replies,
        vec![
            Reply::QueueUpdated,
            Reply::Failed(ApiError::AlreadyInQueue),
            Reply::QueueUpdated,
            Reply::PositionUpdated,
            Reply::QueueUpdated,
        ]
    );
    assert_eq!(ids(actor.data()), vec!["b"]);
    assert_eq!(actor.data().current_song, 1);
    assert_eq!(actor.process_next(), None);
}

#[test]
fn concurrent_duplicate_adds_one_succeeds() {
    let mut actor = SessionActor::new(SessionData::new());
    actor.submit(Command::AddSong(Some(song("a"))));
    actor.submit(Command::AddSong(Some(song("a"))));
    let first = actor.process_next().unwrap();
    let second = actor.process_next().unwrap();
    assert_eq!(first, Reply::QueueUpdated);
    assert_eq!(second, Reply::Failed(ApiError::AlreadyInQueue));
    let text = actor.data().reply_packet(first).unwrap();
    assert_eq!(
        text,
        r#"{"kind":"SetSongs","data":"[{\"id\":\"a\",\"title\":\"title a\",\"thumbnail\":\"thumb a\",\"audio\":\"audio a\"}]"}"#
    );
    assert_eq!(
        actor.data().reply_packet(second).unwrap(),
        r#"{"kind":"Error","data":"Song already in queue"}"#
    );
}

#[test]
fn many_adds_keep_ids_unique() {
    let mut data = SessionData::new();
    for id in ["a", "b", "a", "c", "b", "a"] {
        data.add_song(Some(song(id)));
    }
    assert_eq!(ids(&data), vec!["a", "b", "c"]);
}

#[test]
fn reply_packets_for_position_and_silence() {
    let mut data = SessionData::new();
    data.add_song(Some(song("a")));
    data.add_song(Some(song("b")));
    let r = data.forward_skip();
    assert_eq!(data.reply_packet(r).unwrap(), r#"{"kind":"SetCurrentSong","data":"1"}"#);
    assert_eq!(data.reply_packet(Reply::Silent), None);
}
