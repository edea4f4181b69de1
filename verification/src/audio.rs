//! Reading a song from the bytes of its audio file: lofty parses the file,
//! the library decides what the song is.

use crate::digest::{content_digest, digest_bytes};
use crate::model::{Error, Song, TagData, UncommittedSong};
use crate::tags::{lemma_song_from_tag_fields, song_from_tag, TagView};
use lofty::file::{AudioFile, TaggedFileExt};
use lofty::probe::Probe;
use lofty::tag::{Accessor, ItemKey};
use std::borrow::Cow;
use std::io::Cursor;
use vstd::prelude::*;

verus! {

/// Parses an audio file with lofty: `Probe::new` over the bytes,
/// `guess_file_type` and `read`, as `lofty::read_from` does for a file; then
/// the primary tag (`TaggedFileExt::primary_tag`: the tag of the file type's
/// primary tag type) with its title, artist, album and genre items, the text
/// values of its track-artist, genre and album-artist items, its track and
/// disc numbers, and the playing time of the file's properties, in whole
/// milliseconds. Nothing is promised of the result: lofty's parse also
/// depends on its thread-local options (such as its allocation limit) and
/// on the resolvers registered in the process, so it is not a function of
/// the bytes alone.
#[verifier::external_body]
fn read_audio(bytes: &[u8]) -> (r: Option<(Option<TagData>, u64)>) {
    let f = Probe::new(Cursor::new(bytes)).guess_file_type().ok()?.read().ok()?;
    Some((f.primary_tag().map(|t| {
        let all = |k| t.get_strings(k).map(String::from).collect();
        TagData {
            title: t.title().map(Cow::into_owned), artist: t.artist().map(Cow::into_owned),
            album: t.album().map(Cow::into_owned), genre: t.genre().map(Cow::into_owned),
            track_artists: all(ItemKey::TrackArtists), genres: all(ItemKey::Genre),
            album_artists: all(ItemKey::AlbumArtist), track: t.track(), disk: t.disk(),
        }
    }), f.properties().duration().as_millis() as u64))
}

/// The song that a parse of a file gives, as `song_from_read` states it:
/// no parse is a metadata error; no primary tag, or one without a title, is
/// invalid; otherwise the song is made from the tag and the playing time.
pub open spec fn song_read(r: Result<Song, Error>, path: Seq<u8>, read: Option<(Option<TagView>, u64)>) -> bool {
    match read {
        None => r matches Err(e) && e is MetadataError,
        Some((None, _)) => r matches Err(e) && e is InvalidData,
        Some((Some(tag), ms)) => if tag.title is None {
            r matches Err(e) && e is InvalidData
        } else {
            r matches Ok(song) && song_from_tag(song, tag, path, ms)
        },
    }
}

/// The parse of a file as the contracts see it.
pub open spec fn read_view(read: Option<(Option<TagData>, u64)>) -> Option<(Option<TagView>, u64)> {
    match read {
        None => None,
        Some((None, ms)) => Some((None, ms)),
        Some((Some(t), ms)) => Some((Some(t@), ms)),
    }
}

/// What holds of a song read from a file, whatever lofty found in it: an
/// error is a metadata error or invalid data, and a song is the one made
/// from some tag with a title and some playing time, with the file's path.
pub open spec fn song_read_somehow(r: Result<Song, Error>, path: Seq<u8>) -> bool {
    match r {
        Err(e) => e is MetadataError || e is InvalidData,
        Ok(song) => exists|t: TagView, ms: u64| t.title is Some && #[trigger] song_from_tag(song, t, path, ms),
    }
}

/// Makes the song of a file from what parsing it gave: no parse is a
/// metadata error, a file without a primary tag or whose primary tag has no
/// title is invalid, and otherwise the song is made from the primary tag and
/// the playing time.
pub fn song_from_read(path: Vec<u8>, read: Option<(Option<TagData>, u64)>) -> (r: Result<Song, Error>)
    ensures
        song_read(r, path@, read_view(read)),
        song_read_somehow(r, path@),
{
    match read {
        None => Err(Error::MetadataError),
        Some((None, _)) => Err(Error::InvalidData),
        Some((Some(tag), length_ms)) => {
            let ghost t = tag@;
            let r = Song::from_tag(path, length_ms, tag);
            proof {
                if r is Ok {
                    assert(song_from_tag(r->Ok_0, t, path@, length_ms));
                }
            }
            r
        },
    }
}

/// Reads the song stored in an audio file, given the file's path and bytes:
/// lofty parses the bytes and `song_from_read` makes the song of what it
/// found.
pub fn song_from_bytes(path: Vec<u8>, bytes: &[u8]) -> (r: Result<Song, Error>)
    ensures
        song_read_somehow(r, path@),
{
    song_from_read(path, read_audio(bytes))
}

impl UncommittedSong {
    /// Reads a song that is not yet stored from its file's path and bytes,
    /// with the digest of the bytes.
    pub fn from_bytes(path: Vec<u8>, bytes: &[u8]) -> (r: Result<UncommittedSong, Error>)
        ensures
            song_read_somehow(
                match r {
                    Ok(u) => Ok(u.song),
                    Err(e) => Err(e),
                },
                path@,
            ),
            r matches Ok(u) ==> u.hash@ == content_digest(bytes@),
    {
        let song = song_from_bytes(path, bytes)?;
        Ok(UncommittedSong { song, hash: digest_bytes(bytes) })
    }
}

/// What a parse decides: no parse is a metadata error; a file without a
/// primary tag, or whose primary tag has no title, is invalid; a titled tag
/// gives a song with that title, the file's path and the playing time.
pub proof fn lemma_song_read_answers(r: Result<Song, Error>, path: Seq<u8>, read: Option<(Option<TagView>, u64)>)
    requires
        song_read(r, path, read),
    ensures
        read is None ==> (r matches Err(e) && e is MetadataError),
        read matches Some((t, _)) ==> (t is None ==> (r matches Err(e) && e is InvalidData)),
        read matches Some((t, _)) ==> (t matches Some(tag) ==> (tag.title is None ==> (r matches Err(e) && e is InvalidData))),
        read matches Some((t, ms)) ==> (t matches Some(tag) ==> (tag.title matches Some(title) ==> (r matches Ok(song)
            && song.title@ == title && song.path@ == path && song.length_ms == ms))),
{
    if let Some((Some(tag), ms)) = read {
        if tag.title is Some {
            lemma_song_from_tag_fields(r->Ok_0, tag, path, ms);
        }
    }
}

} // verus!
