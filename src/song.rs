use vstd::prelude::*;

use crate::json::{
    entries_view, entry_lists_view, find_entry, json_quoted, json_string_object_list, lookup, parse_string_object_list,
    quote,
};

verus! {

/// A resolved song: a stable identifier, its title, a thumbnail and a
/// playable audio location.
#[derive(Debug, Clone)]
pub struct SongDetails {
    pub id: String,
    pub title: String,
    pub thumbnail: String,
    pub audio: String,
}

/// The mathematical value of a song: its four texts.
pub struct Song {
    pub id: Seq<char>,
    pub title: Seq<char>,
    pub thumbnail: Seq<char>,
    pub audio: Seq<char>,
}

impl View for SongDetails {
    type V = Song;

    open spec fn view(&self) -> Song {
        Song { id: self.id@, title: self.title@, thumbnail: self.thumbnail@, audio: self.audio@ }
    }
}

/// The songs of a queue, as values.
pub open spec fn songs_view(v: Seq<SongDetails>) -> Seq<Song> {
    v.map_values(|s: SongDetails| s@)
}

impl SongDetails {
    /// A copy of this song with the same four texts.
    pub fn duplicate(&self) -> (r: SongDetails)
        ensures
            r@ == self@,
    {
        SongDetails {
            id: self.id.clone(),
            title: self.title.clone(),
            thumbnail: self.thumbnail.clone(),
            audio: self.audio.clone(),
        }
    }
}

/// The JSON object that stands for a song.
pub open spec fn song_json(s: Song) -> Seq<char> {
    "{\"id\":"@ + json_quoted(s.id) + ",\"title\":"@ + json_quoted(s.title) + ",\"thumbnail\":"@
        + json_quoted(s.thumbnail) + ",\"audio\":"@ + json_quoted(s.audio) + "}"@
}

/// The JSON objects of `q`, separated by commas.
pub open spec fn song_items_json(q: Seq<Song>) -> Seq<char>
    decreases q.len(),
{
    if q.len() == 0 {
        Seq::empty()
    } else if q.len() == 1 {
        song_json(q[0])
    } else {
        song_items_json(q.drop_last()) + ","@ + song_json(q.last())
    }
}

/// The JSON array that stands for a queue of songs.
pub open spec fn songs_json(q: Seq<Song>) -> Seq<char> {
    "["@ + song_items_json(q) + "]"@
}

/// The song that the entries of a JSON object describe: all four fields
/// must be there; other entries are ignored.
pub open spec fn song_of_entries(e: Seq<(Seq<char>, Seq<char>)>) -> Option<Song> {
    match (lookup(e, "id"@), lookup(e, "title"@), lookup(e, "thumbnail"@), lookup(e, "audio"@)) {
        (Some(id), Some(title), Some(thumbnail), Some(audio)) => Some(
            Song { id, title, thumbnail, audio },
        ),
        _ => None,
    }
}

/// The songs that the objects `l` describe, or `None` if one of them is
/// not a song.
pub open spec fn songs_of_objects(l: Seq<Seq<(Seq<char>, Seq<char>)>>) -> Option<Seq<Song>>
    decreases l.len(),
{
    if l.len() == 0 {
        Some(Seq::empty())
    } else {
        match (songs_of_objects(l.drop_last()), song_of_entries(l.last())) {
            (Some(q), Some(s)) => Some(q.push(s)),
            _ => None,
        }
    }
}

/// The queue of songs that a JSON text describes, if it describes one.
pub open spec fn songs_of_json(text: Seq<char>) -> Option<Seq<Song>> {
    match json_string_object_list(text) {
        Some(l) => songs_of_objects(l),
        None => None,
    }
}

/// Appends a JSON string literal for `s` to `out`.
fn push_quoted(out: &mut String, s: &String)
    ensures
        final(out)@ == old(out)@ + json_quoted(s@),
{
    let q = quote(s.as_str()).unwrap();
    out.append(q.as_str());
}

impl SongDetails {
    /// Appends this song's JSON object to `out`.
    pub fn push_json(&self, out: &mut String)
        ensures
            final(out)@ == old(out)@ + song_json(self@),
    {
        proof {
            reveal_strlit("{\"id\":");
            reveal_strlit(",\"title\":");
            reveal_strlit(",\"thumbnail\":");
            reveal_strlit(",\"audio\":");
            reveal_strlit("}");
        }
        out.append("{\"id\":");
        push_quoted(out, &self.id);
        out.append(",\"title\":");
        push_quoted(out, &self.title);
        out.append(",\"thumbnail\":");
        push_quoted(out, &self.thumbnail);
        out.append(",\"audio\":");
        push_quoted(out, &self.audio);
        out.append("}");
        assert(final(out)@ =~= old(out)@ + song_json(self@));
    }

    /// The song that the entries of a JSON object describe, if all four
    /// fields are there.
    pub fn from_entries(entries: &Vec<(String, String)>) -> (r: Option<SongDetails>)
        ensures
            match r {
                Some(d) => song_of_entries(entries_view(entries@)) == Some(d@),
                None => song_of_entries(entries_view(entries@)) is None,
            },
    {
        proof {
            reveal_strlit("id");
            reveal_strlit("title");
            reveal_strlit("thumbnail");
            reveal_strlit("audio");
        }
        let id = find_entry(entries, "id");
        let title = find_entry(entries, "title");
        let thumbnail = find_entry(entries, "thumbnail");
        let audio = find_entry(entries, "audio");
        match (id, title, thumbnail, audio) {
            (Some(id), Some(title), Some(thumbnail), Some(audio)) => Some(
                SongDetails { id, title, thumbnail, audio },
            ),
            _ => None,
        }
    }
}

/// The JSON array text of a queue of songs.
pub fn songs_to_json(songs: &Vec<SongDetails>) -> (r: String)
    ensures
        r@ == songs_json(songs_view(songs@)),
{
    proof {
        reveal_strlit("[");
        reveal_strlit("]");
        reveal_strlit(",");
    }
    let mut out = String::from_str("[");
    let mut i: usize = 0;
    while i < songs.len()
        invariant
            i <= songs@.len(),
            out@ == "["@ + song_items_json(songs_view(songs@).subrange(0, i as int)),
        decreases songs@.len() - i,
    {
        let ghost before = out@;
        let ghost q = songs_view(songs@).subrange(0, i + 1);
        assert(q.drop_last() =~= songs_view(songs@).subrange(0, i as int));
        assert(q.last() == songs[i as int]@);
        if i > 0 {
            out.append(",");
        }
        songs[i].push_json(&mut out);
        proof {
            if i == 0 {
                assert(song_items_json(songs_view(songs@).subrange(0, 0)) =~= Seq::empty());
                assert(q =~= seq![songs[0]@]);
                assert(out@ =~= "["@ + song_items_json(q));
            } else {
                assert(out@ =~= "["@ + song_items_json(q));
            }
        }
        i += 1;
    }
    assert(songs_view(songs@).subrange(0, songs@.len() as int) =~= songs_view(songs@));
    out.append("]");
    out
}

/// Reads a queue of songs from its JSON array text.
pub fn songs_from_json(text: &str) -> (r: Option<Vec<SongDetails>>)
    ensures
        match r {
            Some(v) => songs_of_json(text@) == Some(songs_view(v@)),
            None => songs_of_json(text@) is None,
        },
{
    let objects = match parse_string_object_list(text) {
        Some(l) => l,
        None => return None,
    };
    let ghost l = entry_lists_view(objects@);
    let mut songs: Vec<SongDetails> = Vec::new();
    let mut i: usize = 0;
    while i < objects.len()
        invariant
            i <= objects@.len(),
            l == entry_lists_view(objects@),
            json_string_object_list(text@) == Some(l),
            songs_of_objects(l.subrange(0, i as int)) == Some(songs_view(songs@)),
        decreases objects@.len() - i,
    {
        let ghost sub = l.subrange(0, i + 1);
        assert(sub.drop_last() =~= l.subrange(0, i as int));
        assert(sub.last() == entries_view(objects@[i as int]@));
        match SongDetails::from_entries(&objects[i]) {
            Some(song) => {
                let ghost before = songs@;
                songs.push(song);
                assert(songs_view(songs@) =~= songs_view(before).push(song@));
            },
            None => {
                proof {
                    assert(songs_of_objects(sub) is None);
                    lemma_songs_of_objects_prefix(l, i + 1);
                }
                return None;
            },
        }
        i += 1;
    }
    assert(l.subrange(0, objects@.len() as int) =~= l);
    Some(songs)
}

/// A list of objects with a prefix that is not all songs is not all songs.
proof fn lemma_songs_of_objects_prefix(l: Seq<Seq<(Seq<char>, Seq<char>)>>, n: int)
    requires
        0 <= n <= l.len(),
        songs_of_objects(l.subrange(0, n)) is None,
    ensures
        songs_of_objects(l) is None,
    decreases l.len() - n,
{
    if n < l.len() {
        assert(l.subrange(0, n + 1).drop_last() =~= l.subrange(0, n));
        lemma_songs_of_objects_prefix(l, n + 1);
    } else {
        assert(l.subrange(0, n) =~= l);
    }
}

} // verus!
