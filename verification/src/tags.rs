//! How a song is made from the primary tag of its audio file.

use crate::library::texts;
use crate::model::{Artist, Error, Genre, Song, TagData};
use crate::text::split_at_commas;
use crate::text::{join_texts, lemma_join_append, lemma_split_commas_nonempty, lemma_split_join, lemma_split_pieces_have_no_comma, split_commas};
use vstd::prelude::*;
use vstd::string::*;

verus! {

/// A tag's values as plain texts and numbers.
pub struct TagView {
    pub title: Option<Seq<char>>,
    pub track_artists: Seq<Seq<char>>,
    pub artist: Option<Seq<char>>,
    pub genres: Seq<Seq<char>>,
    pub genre: Option<Seq<char>>,
    pub album: Option<Seq<char>>,
    pub album_artists: Seq<Seq<char>>,
    pub track: Option<u32>,
    pub disk: Option<u32>,
}

pub open spec fn opt_text(o: Option<String>) -> Option<Seq<char>> {
    match o {
        Some(s) => Some(s@),
        None => None,
    }
}

impl View for TagData {
    type V = TagView;

    open spec fn view(&self) -> TagView {
        TagView {
            title: opt_text(self.title),
            track_artists: texts(self.track_artists@),
            artist: opt_text(self.artist),
            genres: texts(self.genres@),
            genre: opt_text(self.genre),
            album: opt_text(self.album),
            album_artists: texts(self.album_artists@),
            track: self.track,
            disk: self.disk,
        }
    }
}

/// The pieces between commas of every genre value, in order.
pub open spec fn genre_pieces(values: Seq<Seq<char>>) -> Seq<Seq<char>>
    decreases values.len(),
{
    if values.len() == 0 {
        Seq::empty()
    } else {
        genre_pieces(values.drop_last()) + split_commas(values.last())
    }
}

pub open spec fn text_or(o: Option<Seq<char>>, default: Seq<char>) -> Seq<char> {
    match o {
        Some(s) => s,
        None => default,
    }
}

/// The artist names of a song read from a tag.
pub open spec fn artists_from_tag(tag: TagView) -> Seq<Seq<char>> {
    if tag.track_artists.len() > 0 {
        tag.track_artists
    } else {
        seq![text_or(tag.artist, "Unknown Artist"@)]
    }
}

/// The genre names of a song read from a tag.
pub open spec fn genres_from_tag(tag: TagView) -> Seq<Seq<char>> {
    let pieces = genre_pieces(tag.genres);
    if pieces.len() > 0 {
        pieces
    } else {
        seq![text_or(tag.genre, Seq::empty())]
    }
}

/// The song read from a tag with a title, with the file's path and playing
/// time.
pub open spec fn song_from_tag(song: Song, tag: TagView, path: Seq<u8>, length_ms: u64) -> bool {
    &&& song.title@ == tag.title->0
    &&& song.length_ms == length_ms
    &&& song.path@ == path
    &&& song.track_number == (match tag.track { Some(t) => t, None => 1u32 }) as i32
    &&& song.disc_number == (match tag.disk { Some(d) => d, None => 0u32 }) as i32
    &&& song.artists@.map_values(|a: Artist| a.name@) == artists_from_tag(tag)
    &&& forall|i: int| 0 <= i < song.artists@.len() ==> !(#[trigger] song.artists@[i]).committed
    &&& song.genres@.map_values(|g: Genre| g.name@) == genres_from_tag(tag)
    &&& forall|i: int| 0 <= i < song.genres@.len() ==> !(#[trigger] song.genres@[i]).committed
    &&& song.album@ == text_or(tag.album, Seq::empty())
    &&& texts(song.album_artists@) == tag.album_artists
    &&& song.image is None
}

fn artists_named(names: &Vec<String>) -> (artists: Vec<Artist>)
    ensures
        artists@.map_values(|a: Artist| a.name@) == texts(names@),
        forall|i: int| 0 <= i < artists@.len() ==> !(#[trigger] artists@[i]).committed,
{
    let mut artists: Vec<Artist> = Vec::new();
    let mut i: usize = 0;
    while i < names.len()
        invariant
            i <= names@.len(),
            artists@.map_values(|a: Artist| a.name@) =~= texts(names@).take(i as int),
            forall|k: int| 0 <= k < artists@.len() ==> !(#[trigger] artists@[k]).committed,
        decreases names@.len() - i,
    {
        artists.push(Artist::new(names[i].clone()));
        proof {
            assert(texts(names@).take(i + 1) =~= texts(names@).take(i as int).push(names@[i as int]@));
        }
        i = i + 1;
    }
    proof {
        assert(texts(names@).take(i as int) =~= texts(names@));
    }
    artists
}

fn genres_split(values: &Vec<String>) -> (genres: Vec<Genre>)
    ensures
        genres@.map_values(|g: Genre| g.name@) == genre_pieces(texts(values@)),
        forall|i: int| 0 <= i < genres@.len() ==> !(#[trigger] genres@[i]).committed,
{
    let mut genres: Vec<Genre> = Vec::new();
    let mut i: usize = 0;
    proof {
        assert(texts(values@).take(0) =~= Seq::<Seq<char>>::empty());
    }
    while i < values.len()
        invariant
            i <= values@.len(),
            genres@.map_values(|g: Genre| g.name@) =~= genre_pieces(texts(values@).take(i as int)),
            forall|k: int| 0 <= k < genres@.len() ==> !(#[trigger] genres@[k]).committed,
        decreases values@.len() - i,
    {
        let pieces = split_at_commas(values[i].as_str());
        let ghost before = genres@.map_values(|g: Genre| g.name@);
        let mut j: usize = 0;
        while j < pieces.len()
            invariant
                j <= pieces@.len(),
                genres@.map_values(|g: Genre| g.name@) =~= before + pieces@.map_values(|p: String| p@).take(j as int),
                forall|k: int| 0 <= k < genres@.len() ==> !(#[trigger] genres@[k]).committed,
            decreases pieces@.len() - j,
        {
            let ghost prev = genres@;
            let g = Genre::new(pieces[j].clone());
            genres.push(g);
            proof {
                assert(genres@ == prev.push(g));
                assert(genres@.map_values(|g: Genre| g.name@) =~= prev.map_values(|g: Genre| g.name@).push(pieces@[j as int]@));
                assert(pieces@.map_values(|p: String| p@).take(j + 1) =~= pieces@.map_values(|p: String| p@).take(j as int).push(pieces@[j as int]@));
            }
            j = j + 1;
        }
        proof {
            assert(pieces@.map_values(|p: String| p@).take(j as int) =~= pieces@.map_values(|p: String| p@));
            assert(texts(values@).take(i + 1).drop_last() =~= texts(values@).take(i as int));
            assert(texts(values@).take(i + 1).last() == values@[i as int]@);
        }
        i = i + 1;
    }
    proof {
        assert(texts(values@).take(i as int) =~= texts(values@));
    }
    genres
}

fn text_or_default(o: Option<String>, default: &str) -> (s: String)
    ensures
        s@ == text_or(opt_text(o), default@),
{
    match o {
        Some(s) => s,
        None => default.to_owned(),
    }
}

impl Song {
    /// Reads a song from the primary tag of its audio file; a tag without a
    /// title is rejected as invalid. The track number defaults to 1, the disc
    /// to 0; without track artists the single artist is used, or "Unknown
    /// Artist"; genre values are split at commas, and without any the single
    /// genre is used, or an empty name; a missing album is an empty name.
    pub fn from_tag(path: Vec<u8>, length_ms: u64, tag: TagData) -> (r: Result<Song, Error>)
        ensures
            tag@.title is None <==> r is Err,
            r matches Err(e) ==> e is InvalidData,
            r matches Ok(song) ==> song_from_tag(song, tag@, path@, length_ms),
            r matches Ok(song) ==> song.title@ == tag@.title->0 && song.path@ == path@ && song.length_ms == length_ms,
    {
        let ghost chosen = tag@;
        let title = match tag.title {
            Some(t) => t,
            None => {
                return Err(Error::InvalidData);
            },
        };
        let artists = if tag.track_artists.len() > 0 {
            artists_named(&tag.track_artists)
        } else {
            proof { reveal_strlit("Unknown Artist"); }
            let name = text_or_default(tag.artist, "Unknown Artist");
            let mut v: Vec<Artist> = Vec::new();
            v.push(Artist::new(name));
            proof {
                assert(v@.map_values(|a: Artist| a.name@) =~= artists_from_tag(chosen));
            }
            v
        };
        let split = genres_split(&tag.genres);
        assert(split@.map_values(|g: Genre| g.name@).len() == split@.len());
        let genres = if split.len() > 0 {
            split
        } else {
            proof { reveal_strlit(""); }
            let name = text_or_default(tag.genre, "");
            let mut v: Vec<Genre> = Vec::new();
            v.push(Genre::new(name));
            proof {
                assert(""@ =~= Seq::<char>::empty());
                assert(genre_pieces(chosen.genres).len() == 0);
                assert(v@.map_values(|g: Genre| g.name@) =~= genres_from_tag(chosen));
            }
            v
        };
        proof { reveal_strlit(""); }
        let album = text_or_default(tag.album, "");
        let track: u32 = match tag.track {
            Some(t) => t,
            None => 1,
        };
        let disk: u32 = match tag.disk {
            Some(d) => d,
            None => 0,
        };
        let song = Song {
            title,
            length_ms,
            path,
            track_number: #[verifier::truncate] (track as i32),
            disc_number: #[verifier::truncate] (disk as i32),
            artists,
            genres,
            album,
            album_artists: tag.album_artists,
            image: None,
        };
        proof {
            assert(""@ =~= Seq::<char>::empty());
            assert(song.album@ == text_or(chosen.album, Seq::empty()));
            assert(song.artists@.map_values(|a: Artist| a.name@) == artists_from_tag(chosen));
            assert(song.genres@.map_values(|g: Genre| g.name@) == genres_from_tag(chosen));
        }
        Ok(song)
    }
}

/// What a song read from a tag holds: the tag's title unchanged, the file's
/// path and playing time; the tag's track and disc numbers, 1 and 0 where
/// it has none; the tag's album, or an empty name; its album artists; the
/// track artists where there are any, else the single artist, else "Unknown
/// Artist"; and no artist or genre taken as stored.
pub proof fn lemma_song_from_tag_fields(song: Song, tag: TagView, path: Seq<u8>, length_ms: u64)
    requires
        song_from_tag(song, tag, path, length_ms),
    ensures
        song.title@ == tag.title->0,
        song.path@ == path,
        song.length_ms == length_ms,
        tag.track is None ==> song.track_number == 1,
        tag.track matches Some(t) ==> (t <= i32::MAX ==> song.track_number == t),
        tag.disk is None ==> song.disc_number == 0,
        tag.disk matches Some(d) ==> (d <= i32::MAX ==> song.disc_number == d),
        tag.album matches Some(a) ==> song.album@ == a,
        tag.album is None ==> song.album@.len() == 0,
        texts(song.album_artists@) == tag.album_artists,
        tag.track_artists.len() > 0 ==> song.artists@.len() == tag.track_artists.len()
            && forall|i: int| 0 <= i < song.artists@.len() ==> (#[trigger] song.artists@[i]).name@ == tag.track_artists[i],
        tag.track_artists.len() == 0 ==> song.artists@.len() == 1 && song.artists@[0].name@ == match tag.artist {
            Some(a) => a,
            None => "Unknown Artist"@,
        },
        song.genres@.len() >= 1,
        tag.genres.len() > 0 ==> join_texts(song.genres@.map_values(|g: Genre| g.name@), seq![',']) == join_texts(tag.genres, seq![','])
            && forall|i: int| 0 <= i < song.genres@.len() ==> !(#[trigger] song.genres@[i]).name@.contains(','),
        tag.genres.len() == 0 ==> song.genres@.len() == 1 && song.genres@[0].name@ == match tag.genre {
            Some(g) => g,
            None => Seq::<char>::empty(),
        },
        forall|i: int| 0 <= i < song.artists@.len() ==> !(#[trigger] song.artists@[i]).committed,
        forall|i: int| 0 <= i < song.genres@.len() ==> !(#[trigger] song.genres@[i]).committed,
{
    let names = song.artists@.map_values(|a: Artist| a.name@);
    assert(names.len() == song.artists@.len());
    assert forall|i: int| 0 <= i < song.artists@.len() implies (#[trigger] song.artists@[i]).name@ == names[i] by {}
    if tag.track is None {
        assert(1u32 as i32 == 1) by (bit_vector);
    }
    if let Some(t) = tag.track {
        assert(t <= 0x7fff_ffffu32 ==> t as i32 == t) by (bit_vector);
    }
    if tag.disk is None {
        assert(0u32 as i32 == 0) by (bit_vector);
    }
    if let Some(d) = tag.disk {
        assert(d <= 0x7fff_ffffu32 ==> d as i32 == d) by (bit_vector);
    }
    let gnames = song.genres@.map_values(|g: Genre| g.name@);
    assert(gnames.len() == song.genres@.len());
    lemma_genre_pieces(tag.genres);
    if tag.genres.len() > 0 {
        assert forall|i: int| 0 <= i < song.genres@.len() implies !(#[trigger] song.genres@[i]).name@.contains(',') by {
            assert(song.genres@[i].name@ == gnames[i]);
            assert(gnames[i] == genre_pieces(tag.genres)[i]);
        }
    } else {
        assert(genre_pieces(tag.genres) =~= Seq::<Seq<char>>::empty());
        assert(song.genres@[0].name@ == gnames[0]);
    }
}

/// The genre names read from a tag's genre values: none holds a comma,
/// there is at least one per value, and joined with commas they give the
/// values joined with commas.
pub proof fn lemma_genre_pieces(values: Seq<Seq<char>>)
    ensures
        genre_pieces(values).len() >= values.len(),
        forall|k: int| 0 <= k < genre_pieces(values).len() ==> !(#[trigger] genre_pieces(values)[k]).contains(','),
        values.len() > 0 ==> join_texts(genre_pieces(values), seq![',']) == join_texts(values, seq![',']),
    decreases values.len(),
{
    if values.len() > 0 {
        let front = values.drop_last();
        let last = values.last();
        lemma_genre_pieces(front);
        lemma_split_commas_nonempty(last);
        lemma_split_pieces_have_no_comma(last);
        lemma_split_join(last);
        let p = genre_pieces(front);
        let q = split_commas(last);
        assert(genre_pieces(values) == p + q);
        assert forall|k: int| 0 <= k < genre_pieces(values).len() implies !(#[trigger] genre_pieces(values)[k]).contains(',') by {
            if k < p.len() {
                assert(genre_pieces(values)[k] == p[k]);
            } else {
                assert(genre_pieces(values)[k] == q[k - p.len()]);
            }
        }
        if front.len() == 0 {
            assert(p =~= Seq::<Seq<char>>::empty());
            assert(p + q =~= q);
            assert(values.len() == 1);
        } else {
            lemma_join_append(p, q, seq![',']);
            assert(join_texts(values, seq![',']) == join_texts(front, seq![',']) + seq![','] + last);
        }
    }
}

} // verus!
