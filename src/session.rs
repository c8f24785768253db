use vstd::prelude::*;

use crate::decimal::decimal;
use crate::errors::{error_message, ApiError};
use crate::packet::{packet_text, Packet, PacketData, PacketKind};
use crate::song::{songs_json, songs_to_json, songs_view, Song, SongDetails};

verus! {

/// The authoritative state of one session: the playback cursor, the ordered
/// queue of songs and the number of joined participants.
#[derive(Debug)]
pub struct SessionData {
    pub current_song: u32,
    pub songs: Vec<SongDetails>,
    pub users: u32,
}

/// The mathematical value of a session's state.
pub struct SessionView {
    pub current_song: nat,
    pub songs: Seq<Song>,
    pub users: nat,
}

impl View for SessionData {
    type V = SessionView;

    open spec fn view(&self) -> SessionView {
        SessionView {
            current_song: self.current_song as nat,
            songs: songs_view(self.songs@),
            users: self.users as nat,
        }
    }
}

/// Whether a song with identifier `id` stands in `songs`.
pub open spec fn has_song(songs: Seq<Song>, id: Seq<char>) -> bool {
    exists|i: int| 0 <= i < songs.len() && #[trigger] songs[i].id == id
}

/// No two songs of `songs` share an identifier.
pub open spec fn unique_ids(songs: Seq<Song>) -> bool {
    forall|i: int, j: int|
        0 <= i < j < songs.len() ==> #[trigger] songs[i].id != #[trigger] songs[j].id
}

/// `songs` without the songs whose identifier is `id`, order kept.
pub open spec fn without_song(songs: Seq<Song>, id: Seq<char>) -> Seq<Song> {
    songs.filter(|s: Song| s.id != id)
}

/// A session state is well formed when its queue holds each identifier once.
pub open spec fn session_wf(s: SessionView) -> bool {
    unique_ids(s.songs)
}

/// A mutation requested by a participant. A song to add arrives already
/// resolved: `None` when its reference could not be resolved.
#[derive(Debug)]
pub enum Command {
    AddSong(Option<SongDetails>),
    RemoveSong(String),
    ForwardSkip,
    BackwardSkip,
}

/// The mathematical value of a command.
pub enum CommandView {
    AddSong(Option<Song>),
    RemoveSong(Seq<char>),
    ForwardSkip,
    BackwardSkip,
}

impl View for Command {
    type V = CommandView;

    open spec fn view(&self) -> CommandView {
        match self {
            Command::AddSong(s) => CommandView::AddSong(
                match s {
                    Some(d) => Some(d@),
                    None => None,
                },
            ),
            Command::RemoveSong(id) => CommandView::RemoveSong(id@),
            Command::ForwardSkip => CommandView::ForwardSkip,
            Command::BackwardSkip => CommandView::BackwardSkip,
        }
    }
}

/// The command that a participant's packet asks for, given what resolving
/// its song reference gave (used only for `AddSong`); server packets ask for
/// none.
pub open spec fn command_of(kind: PacketKind, data: Seq<char>, resolved: Option<Song>) -> Option<
    CommandView,
> {
    match kind {
        PacketKind::AddSong => Some(CommandView::AddSong(resolved)),
        PacketKind::RemoveSong => Some(CommandView::RemoveSong(data)),
        PacketKind::ForwardSkip => Some(CommandView::ForwardSkip),
        PacketKind::BackwardSkip => Some(CommandView::BackwardSkip),
        _ => None,
    }
}

/// A resolved song, as a value.
pub open spec fn resolved_view(r: Option<SongDetails>) -> Option<Song> {
    match r {
        Some(d) => Some(d@),
        None => None,
    }
}

impl Command {
    /// The command that `packet` asks for; `resolved` is what resolving the
    /// song reference of an `AddSong` packet gave.
    pub fn from_packet(packet: &Packet, resolved: Option<SongDetails>) -> (r: Option<Command>)
        ensures
            match r {
                Some(c) => command_of(packet.kind, packet.data@, resolved_view(resolved)) == Some(c@),
                None => command_of(packet.kind, packet.data@, resolved_view(resolved)) is None,
            },
    {
        match packet.kind {
            PacketKind::AddSong => Some(Command::AddSong(resolved)),
            PacketKind::RemoveSong => Some(Command::RemoveSong(packet.data.clone())),
            PacketKind::ForwardSkip => Some(Command::ForwardSkip),
            PacketKind::BackwardSkip => Some(Command::BackwardSkip),
            _ => None,
        }
    }
}

/// What a command produced: the queue or the cursor changed (and was to be
/// persisted and broadcast), the command failed (reported to its sender
/// only), or nothing happened.
#[derive(Debug, Clone, Copy, PartialEq, Eq, Structural)]
pub enum Reply {
    QueueUpdated,
    PositionUpdated,
    Failed(ApiError),
    Silent,
}

/// The state after one command, and what it produced.
pub open spec fn step(s: SessionView, c: CommandView) -> (SessionView, Reply) {
    match c {
        CommandView::AddSong(None) => (s, Reply::Failed(ApiError::InvalidSong)),
        CommandView::AddSong(Some(song)) => {
            if has_song(s.songs, song.id) {
                (s, Reply::Failed(ApiError::AlreadyInQueue))
            } else {
                (SessionView { songs: s.songs.push(song), ..s }, Reply::QueueUpdated)
            }
        },
        CommandView::RemoveSong(id) => (
            SessionView { songs: without_song(s.songs, id), ..s },
            Reply::QueueUpdated,
        ),
        CommandView::ForwardSkip => {
            if s.current_song + 1 < s.songs.len() && s.current_song + 1 <= u32::MAX {
                (SessionView { current_song: (s.current_song + 1) as nat, ..s }, Reply::PositionUpdated)
            } else {
                (s, Reply::Silent)
            }
        },
        CommandView::BackwardSkip => {
            if s.current_song > 0 {
                (SessionView { current_song: (s.current_song - 1) as nat, ..s }, Reply::PositionUpdated)
            } else {
                (s, Reply::Silent)
            }
        },
    }
}

/// The state after a participant's packet, and what it produced.
pub open spec fn packet_step(s: SessionView, kind: PacketKind, data: Seq<char>, resolved: Option<Song>) -> (
    SessionView,
    Reply,
) {
    match command_of(kind, data, resolved) {
        Some(c) => step(s, c),
        None => (s, Reply::Silent),
    }
}

/// The text to send for what a command produced: the new queue, the new
/// position, or the error; nothing for a silent command.
pub open spec fn reply_text(s: SessionView, r: Reply) -> Option<Seq<char>> {
    match r {
        Reply::QueueUpdated => Some(packet_text(PacketKind::SetSongs, songs_json(s.songs))),
        Reply::PositionUpdated => Some(packet_text(PacketKind::SetCurrentSong, decimal(s.current_song))),
        Reply::Failed(e) => Some(packet_text(PacketKind::Error, error_message(e))),
        Reply::Silent => None,
    }
}

/// The state after the commands of `cs`, applied one after another.
pub open spec fn run(s: SessionView, cs: Seq<CommandView>) -> SessionView
    decreases cs.len(),
{
    if cs.len() == 0 {
        s
    } else {
        step(run(s, cs.drop_last()), cs.last()).0
    }
}

impl SessionData {
    /// A fresh session: empty queue, cursor at the start, nobody joined.
    pub fn new() -> (r: Self)
        ensures
            r@.current_song == 0,
            r@.songs.len() == 0,
            r@.users == 0,
            session_wf(r@),
    {
        SessionData { current_song: 0, songs: Vec::new(), users: 0 }
    }

    /// The position of the song with identifier `id` in the queue, if any.
    pub fn find_song(&self, id: &String) -> (r: Option<usize>)
        ensures
            match r {
                Some(i) => i < self.songs@.len() && self@.songs[i as int].id == id@,
                None => !has_song(self@.songs, id@),
            },
    {
        let mut i: usize = 0;
        while i < self.songs.len()
            invariant
                i <= self.songs@.len(),
                forall|k: int| 0 <= k < i ==> #[trigger] self@.songs[k].id != id@,
            decreases self.songs@.len() - i,
        {
            if self.songs[i].id == *id {
                return Some(i);
            }
            i += 1;
        }
        None
    }

    /// Appends a resolved song unless one with its identifier is queued.
    pub fn add_song(&mut self, resolved: Option<SongDetails>) -> (r: Reply)
        ensures
            (final(self)@, r) == step(old(self)@, CommandView::AddSong(
                match resolved {
                    Some(d) => Some(d@),
                    None => None,
                },
            )),
    {
        match resolved {
            None => Reply::Failed(ApiError::InvalidSong),
            Some(details) => {
                if self.find_song(&details.id).is_some() {
                    return Reply::Failed(ApiError::AlreadyInQueue);
                }
                let ghost before = self.songs@;
                self.songs.push(details);
                proof {
                    assert(songs_view(self.songs@) =~= songs_view(before).push(details@));
                }
                Reply::QueueUpdated
            },
        }
    }

    /// Removes the songs whose identifier is `id`; the queue is updated even
    /// when there was none.
    pub fn remove_song(&mut self, id: &String) -> (r: Reply)
        ensures
            (final(self)@, r) == step(old(self)@, CommandView::RemoveSong(id@)),
    {
        let mut kept: Vec<SongDetails> = Vec::new();
        let mut i: usize = 0;
        while i < self.songs.len()
            invariant
                i <= self.songs@.len(),
                songs_view(kept@) =~= without_song(self@.songs.subrange(0, i as int), id@),
            decreases self.songs@.len() - i,
        {
            proof {
                reveal(Seq::filter);
                let prefix = self@.songs.subrange(0, i as int);
                assert(self@.songs.subrange(0, i + 1).drop_last() =~= prefix);
                assert(self@.songs.subrange(0, i + 1).last() == self@.songs[i as int]);
            }
            if !(self.songs[i].id == *id) {
                let ghost k0 = kept@;
                kept.push(self.songs[i].duplicate());
                assert(songs_view(kept@) =~= songs_view(k0).push(self@.songs[i as int]));
            }
            i += 1;
        }
        assert(self@.songs.subrange(0, self.songs@.len() as int) =~= self@.songs);
        self.songs = kept;
        Reply::QueueUpdated
    }

    /// Moves the cursor to the next song when there is one.
    pub fn forward_skip(&mut self) -> (r: Reply)
        ensures
            (final(self)@, r) == step(old(self)@, CommandView::ForwardSkip),
    {
        if (self.current_song as u64) + 1 < self.songs.len() as u64 && self.current_song < u32::MAX {
            self.current_song = self.current_song + 1;
            Reply::PositionUpdated
        } else {
            Reply::Silent
        }
    }

    /// Moves the cursor to the previous song when there is one.
    pub fn backward_skip(&mut self) -> (r: Reply)
        ensures
            (final(self)@, r) == step(old(self)@, CommandView::BackwardSkip),
    {
        if self.current_song > 0 {
            self.current_song = self.current_song - 1;
            Reply::PositionUpdated
        } else {
            Reply::Silent
        }
    }

    /// Counts one more participant; the count stays at `u32::MAX` once it
    /// is there.
    pub fn join(&mut self)
        ensures
            final(self)@ == (SessionView {
                users: if old(self)@.users < u32::MAX { old(self)@.users + 1 } else { old(self)@.users },
                ..old(self)@
            }),
    {
        if self.users < u32::MAX {
            self.users = self.users + 1;
        }
    }

    /// Counts one participant less. Returns whether that was the last one, in
    /// which case the session is to be deleted rather than persisted.
    pub fn leave(&mut self) -> (last: bool)
        ensures
            last == (old(self)@.users <= 1),
            final(self)@ == (SessionView {
                users: if last { 0 } else { (old(self)@.users - 1) as nat },
                ..old(self)@
            }),
    {
        if self.users <= 1 {
            self.users = 0;
            true
        } else {
            self.users = self.users - 1;
            false
        }
    }

    /// Applies one command.
    pub fn apply(&mut self, command: Command) -> (r: Reply)
        ensures
            (final(self)@, r) == step(old(self)@, command@),
    {
        match command {
            Command::AddSong(resolved) => self.add_song(resolved),
            Command::RemoveSong(id) => self.remove_song(&id),
            Command::ForwardSkip => self.forward_skip(),
            Command::BackwardSkip => self.backward_skip(),
        }
    }
}

/// Applies the command that a participant's packet asks for. `resolved` is
/// what resolving the song reference of an `AddSong` packet gave: `None`
/// when resolution failed.
pub fn handle_packet(data: &mut SessionData, packet: &Packet, resolved: Option<SongDetails>) -> (r: Reply)
    ensures
        (final(data)@, r) == packet_step(old(data)@, packet.kind, packet.data@, resolved_view(resolved)),
{
    match Command::from_packet(packet, resolved) {
        Some(command) => data.apply(command),
        None => Reply::Silent,
    }
}

impl SessionData {
    /// The text of the packet that carries the queue.
    pub fn songs_packet(&self) -> (r: String)
        ensures
            r@ == packet_text(PacketKind::SetSongs, songs_json(self@.songs)),
    {
        Packet::serialized_str(PacketKind::SetSongs, songs_to_json(&self.songs))
    }

    /// The text of the packet that carries the playback position.
    pub fn position_packet(&self) -> (r: String)
        ensures
            r@ == packet_text(PacketKind::SetCurrentSong, decimal(self@.current_song)),
    {
        Packet::serialized(PacketKind::SetCurrentSong, &PacketData::Index(self.current_song))
    }

    /// The text to send for what a command produced on this state.
    pub fn reply_packet(&self, reply: Reply) -> (r: Option<String>)
        ensures
            match r {
                Some(t) => reply_text(self@, reply) == Some(t@),
                None => reply_text(self@, reply) is None,
            },
    {
        match reply {
            Reply::QueueUpdated => Some(self.songs_packet()),
            Reply::PositionUpdated => Some(self.position_packet()),
            Reply::Failed(e) => Some(e.as_serialized_packet()),
            Reply::Silent => None,
        }
    }

    /// The packets that seed a newly joined participant: the queue, then the
    /// playback position.
    pub fn snapshot_packets(&self) -> (r: (String, String))
        ensures
            r.0@ == packet_text(PacketKind::SetSongs, songs_json(self@.songs)),
            r.1@ == packet_text(PacketKind::SetCurrentSong, decimal(self@.current_song)),
    {
        (self.songs_packet(), self.position_packet())
    }
}

/// The single serialized owner of one session's live state. Commands are
/// queued in the order they are submitted and applied one at a time, so the
/// state is always the result of applying the committed commands in order to
/// the state the actor started from.
pub struct SessionActor {
    data: SessionData,
    mailbox: Vec<Command>,
    origin: Ghost<SessionView>,
    committed: Ghost<Seq<CommandView>>,
}

impl SessionActor {
    /// The live state.
    pub closed spec fn state(&self) -> SessionView {
        self.data@
    }

    /// The state the actor was started from.
    pub closed spec fn origin(&self) -> SessionView {
        self.origin@
    }

    /// The commands applied so far, in the order they were applied.
    pub closed spec fn committed(&self) -> Seq<CommandView> {
        self.committed@
    }

    /// The commands submitted and not yet applied, in submission order.
    pub closed spec fn pending(&self) -> Seq<CommandView> {
        self.mailbox@.map_values(|c: Command| c@)
    }

    /// The live state is the committed commands applied in order to the
    /// starting state.
    pub closed spec fn wf(&self) -> bool {
        self.data@ == run(self.origin@, self.committed@)
    }

    /// An actor that owns `data`, with nothing submitted yet.
    pub fn new(data: SessionData) -> (r: Self)
        ensures
            r.wf(),
            r.state() == data@,
            r.origin() == data@,
            r.committed().len() == 0,
            r.pending().len() == 0,
    {
        let ghost origin = data@;
        SessionActor {
            data,
            mailbox: Vec::new(),
            origin: Ghost(origin),
            committed: Ghost(Seq::empty()),
        }
    }

    /// The live state, for reading.
    pub fn data(&self) -> (r: &SessionData)
        ensures
            r@ == self.state(),
    {
        &self.data
    }

    /// Queues a command behind every command submitted before it.
    pub fn submit(&mut self, command: Command)
        requires
            old(self).wf(),
        ensures
            final(self).wf(),
            final(self).pending() == old(self).pending().push(command@),
            final(self).committed() == old(self).committed(),
            final(self).state() == old(self).state(),
            final(self).origin() == old(self).origin(),
    {
        let ghost before = self.mailbox@;
        self.mailbox.push(command);
        proof {
            assert(self.mailbox@.map_values(|c: Command| c@) =~= before.map_values(
                |c: Command| c@,
            ).push(command@));
        }
    }

    /// Applies the oldest pending command, if any, and returns what it
    /// produced.
    pub fn process_next(&mut self) -> (r: Option<Reply>)
        requires
            old(self).wf(),
        ensures
            final(self).wf(),
            final(self).origin() == old(self).origin(),
            old(self).pending().len() == 0 ==> r.is_none() && final(self).committed() == old(
                self,
            ).committed() && final(self).pending() == old(self).pending() && final(self).state()
                == old(self).state(),
            old(self).pending().len() > 0 ==> {
                let c = old(self).pending()[0];
                &&& r == Some(step(old(self).state(), c).1)
                &&& final(self).state() == step(old(self).state(), c).0
                &&& final(self).committed() == old(self).committed().push(c)
                &&& final(self).pending() == old(self).pending().drop_first()
            },
    {
        if self.mailbox.len() == 0 {
            return None;
        }
        let ghost before = self.mailbox@;
        let command = self.mailbox.remove(0);
        let ghost c = command@;
        proof {
            assert(before.map_values(|c: Command| c@)[0] == c);
            assert(self.mailbox@.map_values(|c: Command| c@) =~= before.map_values(
                |c: Command| c@,
            ).drop_first());
        }
        let reply = self.data.apply(command);
        proof {
            let cs = self.committed@.push(c);
            assert(cs.drop_last() =~= self.committed@);
            self.committed@ = cs;
        }
        Some(reply)
    }

    /// Applies every pending command in submission order and returns what
    /// each produced.
    pub fn drain(&mut self) -> (r: Vec<Reply>)
        requires
            old(self).wf(),
        ensures
            final(self).wf(),
            final(self).origin() == old(self).origin(),
            final(self).pending().len() == 0,
            final(self).committed() == old(self).committed() + old(self).pending(),
            final(self).state() == run(old(self).origin(), old(self).committed() + old(self).pending()),
            r@.len() == old(self).pending().len(),
    {
        let mut replies: Vec<Reply> = Vec::new();
        while self.mailbox.len() > 0
            invariant
                self.wf(),
                self.origin() == old(self).origin(),
                self.committed() + self.pending() == old(self).committed() + old(self).pending(),
                replies@.len() + self.pending().len() == old(self).pending().len(),
            decreases self.mailbox@.len(),
        {
            let ghost p0 = self.pending();
            let ghost c0 = self.committed();
            let reply = self.process_next();
            match reply {
                Some(x) => replies.push(x),
                None => {},
            }
            proof {
                assert(p0 =~= seq![p0[0]] + p0.drop_first());
                assert(c0.push(p0[0]) + p0.drop_first() =~= c0 + p0);
            }
        }
        proof {
            assert(self.pending().len() == 0);
            assert(self.committed() =~= self.committed() + self.pending());
        }
        replies
    }
}

/// Removing an identifier that is not queued leaves the queue as it is.
pub proof fn lemma_without_absent(songs: Seq<Song>, id: Seq<char>)
    requires
        !has_song(songs, id),
    ensures
        without_song(songs, id) == songs,
    decreases songs.len(),
{
    reveal(Seq::filter);
    if songs.len() > 0 {
        let rest = songs.drop_last();
        assert(!has_song(rest, id)) by {
            if has_song(rest, id) {
                let i = choose|i: int| 0 <= i < rest.len() && #[trigger] rest[i].id == id;
                assert(songs[i].id == id);
            }
        }
        lemma_without_absent(rest, id);
        assert(songs.last().id != id) by {
            assert(songs[songs.len() - 1].id == songs.last().id);
        }
        assert(rest.push(songs.last()) =~= songs);
    }
}

/// Every song left after removing `id` was in `songs`, and none has that
/// identifier.
pub proof fn lemma_without_song_members(songs: Seq<Song>, id: Seq<char>)
    ensures
        forall|k: int|
            0 <= k < without_song(songs, id).len() ==> {
                &&& #[trigger] without_song(songs, id)[k].id != id
                &&& exists|j: int| 0 <= j < songs.len() && songs[j] == without_song(songs, id)[k]
            },
        without_song(songs, id).len() <= songs.len(),
    decreases songs.len(),
{
    reveal(Seq::filter);
    if songs.len() > 0 {
        let rest = songs.drop_last();
        lemma_without_song_members(rest, id);
        let w = without_song(songs, id);
        let wr = without_song(rest, id);
        assert forall|k: int| 0 <= k < w.len() implies {
            &&& #[trigger] w[k].id != id
            &&& exists|j: int| 0 <= j < songs.len() && songs[j] == w[k]
        } by {
            if k < wr.len() {
                assert(w[k] == wr[k]);
                let j = choose|j: int| 0 <= j < rest.len() && rest[j] == wr[k];
                assert(songs[j] == rest[j]);
            } else {
                assert(w[k] == songs.last());
                assert(songs[songs.len() - 1] == songs.last());
            }
        }
    }
}

/// Removing songs keeps the queue free of repeated identifiers.
pub proof fn lemma_without_song_unique(songs: Seq<Song>, id: Seq<char>)
    requires
        unique_ids(songs),
    ensures
        unique_ids(without_song(songs, id)),
    decreases songs.len(),
{
    reveal(Seq::filter);
    if songs.len() > 0 {
        let rest = songs.drop_last();
        assert(unique_ids(rest)) by {
            assert forall|i: int, j: int| 0 <= i < j < rest.len() implies #[trigger] rest[i].id
                != #[trigger] rest[j].id by {
                assert(rest[i] == songs[i] && rest[j] == songs[j]);
            }
        }
        lemma_without_song_unique(rest, id);
        lemma_without_song_members(rest, id);
        let wr = without_song(rest, id);
        let last = songs.last();
        if last.id != id {
            let w = wr.push(last);
            assert forall|i: int, j: int| 0 <= i < j < w.len() implies #[trigger] w[i].id
                != #[trigger] w[j].id by {
                if j == w.len() - 1 {
                    assert(w[i] == wr[i]);
                    let k = choose|k: int| 0 <= k < rest.len() && rest[k] == wr[i];
                    assert(songs[k] == rest[k]);
                    assert(songs[songs.len() - 1] == last);
                } else {
                    assert(w[i] == wr[i] && w[j] == wr[j]);
                }
            }
        }
    }
}

/// Every command keeps the queue free of repeated identifiers.
pub proof fn lemma_step_keeps_unique(s: SessionView, c: CommandView)
    requires
        session_wf(s),
    ensures
        session_wf(step(s, c).0),
{
    match c {
        CommandView::AddSong(Some(song)) => {
            if !has_song(s.songs, song.id) {
                let q = s.songs.push(song);
                assert forall|i: int, j: int| 0 <= i < j < q.len() implies #[trigger] q[i].id
                    != #[trigger] q[j].id by {
                    if j == q.len() - 1 {
                        assert(q[i] == s.songs[i]);
                    } else {
                        assert(q[i] == s.songs[i] && q[j] == s.songs[j]);
                    }
                }
            }
        },
        CommandView::RemoveSong(id) => {
            lemma_without_song_unique(s.songs, id);
        },
        _ => {},
    }
}

/// After any sequence of commands no two queued songs share an identifier.
pub proof fn lemma_run_keeps_unique(s: SessionView, cs: Seq<CommandView>)
    requires
        session_wf(s),
    ensures
        session_wf(run(s, cs)),
    decreases cs.len(),
{
    if cs.len() > 0 {
        lemma_run_keeps_unique(s, cs.drop_last());
        lemma_step_keeps_unique(run(s, cs.drop_last()), cs.last());
    }
}

/// Adding a song whose identifier is already queued changes nothing and
/// fails with `AlreadyInQueue`.
pub proof fn lemma_duplicate_add_rejected(s: SessionView, song: Song)
    requires
        has_song(s.songs, song.id),
    ensures
        step(s, CommandView::AddSong(Some(song))) == (s, Reply::Failed(ApiError::AlreadyInQueue)),
{
}

/// Removing an identifier that is not queued, once or twice, leaves the
/// queue as it was and reports the same queue update each time.
pub proof fn lemma_remove_absent_idempotent(s: SessionView, id: Seq<char>)
    requires
        !has_song(s.songs, id),
    ensures
        step(s, CommandView::RemoveSong(id)).0 == s,
        step(s, CommandView::RemoveSong(id)).1 == Reply::QueueUpdated,
        step(step(s, CommandView::RemoveSong(id)).0, CommandView::RemoveSong(id)) == step(
            s,
            CommandView::RemoveSong(id),
        ),
{
    lemma_without_absent(s.songs, id);
}

/// Skipping forward from the last song, or backward from the first, changes
/// nothing and produces nothing to broadcast.
pub proof fn lemma_skip_at_bounds(s: SessionView)
    ensures
        s.current_song + 1 == s.songs.len() ==> step(s, CommandView::ForwardSkip) == (s, Reply::Silent)
            && reply_text(s, Reply::Silent) is None,
        s.current_song == 0 ==> step(s, CommandView::BackwardSkip) == (s, Reply::Silent)
            && reply_text(s, Reply::Silent) is None,
{
}

/// Applying two batches of commands one after the other is applying their
/// concatenation: a serialized actor's state depends only on the order in
/// which it committed the commands.
pub proof fn lemma_run_concat(s: SessionView, a: Seq<CommandView>, b: Seq<CommandView>)
    ensures
        run(s, a + b) == run(run(s, a), b),
    decreases b.len(),
{
    if b.len() == 0 {
        assert(a + b =~= a);
    } else {
        lemma_run_concat(s, a, b.drop_last());
        assert((a + b).drop_last() =~= a + b.drop_last());
        assert((a + b).last() == b.last());
    }
}

} // verus!
