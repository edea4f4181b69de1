//! The library's data: artists, genres, songs and albums, and the rules by
//! which a song is built from the tags read out of an audio file.

use std::sync::Arc;
use vstd::prelude::*;

verus! {

/// What the store answered when asked to insert a name that is unique there.
pub enum InsertOutcome<E> {
    /// A new row was written.
    Inserted,
    /// A row with this name was already stored.
    UniqueViolation,
    /// The store failed with another error.
    Failed(E),
}

/// A performing artist, remembered together with whether the store is known
/// to hold its name.
#[derive(Clone, Debug, PartialEq, Eq)]
pub struct Artist {
    pub name: String,
    pub committed: bool,
}

impl Artist {
    /// An artist that is not yet known to be stored.
    pub fn new(name: String) -> (a: Artist)
        ensures
            a.name == name,
            !a.committed,
    {
        Artist { name, committed: false }
    }

    /// An artist read back from the store.
    pub fn stored(name: String) -> (a: Artist)
        ensures
            a.name == name,
            a.committed,
    {
        Artist { name, committed: true }
    }

    /// Settles a commit from the store's answer to the insertion: an insert
    /// that hit an existing row marks the artist as stored, a failure is
    /// handed back, and a fresh insert leaves the flag as it was.
    pub fn settle<E>(&mut self, outcome: InsertOutcome<E>) -> (r: Result<(), E>)
        ensures
            final(self).name == old(self).name,
            final(self).committed == (old(self).committed
                || outcome is UniqueViolation),
            match outcome {
                InsertOutcome::Failed(e) => r == Err::<(), E>(e),
                _ => r is Ok,
            },
    {
        match outcome {
            InsertOutcome::Inserted => Ok(()),
            InsertOutcome::UniqueViolation => {
                self.committed = true;
                Ok(())
            },
            InsertOutcome::Failed(e) => Err(e),
        }
    }

    /// A copy of this artist.
    pub fn duplicate(&self) -> (a: Artist)
        ensures
            a == *self,
    {
        Artist { name: self.name.clone(), committed: self.committed }
    }
}

impl From<String> for Artist {
    fn from(value: String) -> (a: Artist) {
        Artist { name: value, committed: false }
    }
}

impl vstd::std_specs::convert::FromSpecImpl<String> for Artist {
    open spec fn obeys_from_spec() -> bool {
        true
    }

    open spec fn from_spec(v: String) -> Artist {
        Artist { name: v, committed: false }
    }
}

/// A musical genre, remembered together with whether the store is known to
/// hold its name.
#[derive(Clone, Debug, PartialEq, Eq)]
pub struct Genre {
    pub name: String,
    pub committed: bool,
}

impl Genre {
    /// A genre that is not yet known to be stored.
    pub fn new(name: String) -> (g: Genre)
        ensures
            g.name == name,
            !g.committed,
    {
        Genre { name, committed: false }
    }

    /// A genre read back from the store.
    pub fn stored(name: String) -> (g: Genre)
        ensures
            g.name == name,
            g.committed,
    {
        Genre { name, committed: true }
    }

    /// Settles a commit from the store's answer, as for artists.
    pub fn settle<E>(&mut self, outcome: InsertOutcome<E>) -> (r: Result<(), E>)
        ensures
            final(self).name == old(self).name,
            final(self).committed == (old(self).committed
                || outcome is UniqueViolation),
            match outcome {
                InsertOutcome::Failed(e) => r == Err::<(), E>(e),
                _ => r is Ok,
            },
    {
        match outcome {
            InsertOutcome::Inserted => Ok(()),
            InsertOutcome::UniqueViolation => {
                self.committed = true;
                Ok(())
            },
            InsertOutcome::Failed(e) => Err(e),
        }
    }
}

impl From<String> for Genre {
    fn from(value: String) -> (g: Genre) {
        Genre { name: value, committed: false }
    }
}

impl vstd::std_specs::convert::FromSpecImpl<String> for Genre {
    open spec fn obeys_from_spec() -> bool {
        true
    }

    open spec fn from_spec(v: String) -> Genre {
        Genre { name: v, committed: false }
    }
}


/// A song of the library.
#[derive(Clone, Debug)]
pub struct Song {
    pub title: String,
    /// Playing time in milliseconds.
    pub length_ms: u64,
    /// The file's path, as the bytes of its platform encoding.
    pub path: Vec<u8>,
    pub track_number: i32,
    pub disc_number: i32,
    pub artists: Vec<Artist>,
    pub genres: Vec<Genre>,
    /// Name of the album; empty where the file names none.
    pub album: String,
    /// Artists credited for the whole album; empty where the file names none.
    pub album_artists: Vec<String>,
    /// Cover art that the window shows; reading a file leaves it empty.
    pub image: Option<Vec<u8>>,
}

/// Why no song could be read from a file.
#[derive(Clone, Debug)]
pub enum Error {
    /// The audio file's metadata could not be read.
    MetadataError,
    /// The file could not be opened.
    IOError,
    /// The file has no primary tag, or it has no title.
    InvalidData,
}

/// The values read from the primary tag of an audio file.
#[derive(Clone, Debug)]
pub struct TagData {
    pub title: Option<String>,
    /// Every value of the track-artists item.
    pub track_artists: Vec<String>,
    /// The single artist item.
    pub artist: Option<String>,
    /// Every value of the genre item.
    pub genres: Vec<String>,
    /// The single genre item.
    pub genre: Option<String>,
    pub album: Option<String>,
    /// Every value of the album-artist item.
    pub album_artists: Vec<String>,
    pub track: Option<u32>,
    pub disk: Option<u32>,
}

/// A song read from a file that is not yet in the store, with the digest of
/// the file that identifies it.
#[derive(Clone, Debug)]
pub struct UncommittedSong {
    pub song: Song,
    pub hash: [u8; 32],
}

/// An album: its songs, credited artists and the combined digest of the files
/// it was built from.
#[derive(Clone, Debug)]
pub struct Album {
    pub id: i32,
    pub songs: Vec<Arc<Song>>,
    pub name: String,
    pub artists: Vec<Artist>,
    pub hash: [u8; 32],
}

/// The digest of an album as the store keeps it, when it has a digest's
/// length.
pub fn digest_from_bytes(bytes: &Vec<u8>) -> (r: Option<[u8; 32]>)
    ensures
        r is Some <==> bytes@.len() == 32,
        r matches Some(d) ==> d@ == bytes@,
{
    if bytes.len() != 32 {
        return None;
    }
    let mut d: [u8; 32] = [0u8; 32];
    let mut i: usize = 0;
    while i < 32
        invariant
            i <= 32,
            bytes@.len() == 32,
            d@.len() == 32,
            forall|j: int| 0 <= j < i ==> d@[j] == bytes@[j],
        decreases 32 - i,
    {
        d[i] = bytes[i];
        i = i + 1;
    }
    proof {
        assert(d@ =~= bytes@);
    }
    Some(d)
}

impl Song {
    /// The playing time as the store keeps it: milliseconds in an `i32`,
    /// wrapped as an `as` cast wraps.
    pub fn stored_length(&self) -> (l: i32)
        ensures
            l == self.length_ms as i32,
    {
        #[verifier::truncate] (self.length_ms as i32)
    }
}

/// An album as the contracts see it: its songs as a sequence.
pub struct AlbumView {
    pub id: i32,
    pub songs: Seq<Arc<Song>>,
    pub name: String,
    pub artists: Seq<Artist>,
    pub hash: [u8; 32],
}

impl View for Album {
    type V = AlbumView;

    open spec fn view(&self) -> AlbumView {
        AlbumView {
            id: self.id,
            songs: self.songs@,
            name: self.name,
            artists: self.artists@,
            hash: self.hash,
        }
    }
}

impl Album {
    /// An album with the given parts.
    pub fn new(id: i32, songs: Vec<Arc<Song>>, name: String, artists: Vec<Artist>, hash: [u8; 32]) -> (a: Album)
        ensures
            a.id == id,
            a.songs == songs,
            a.name == name,
            a.artists == artists,
            a.hash == hash,
    {
        Album { id, songs, name, artists, hash }
    }
}

/// Another handle to the same song, by `Arc::clone`, which the standard
/// library documents as a new pointer to the same allocation: the song behind
/// the handle is the same one.
#[verifier::external_body]
pub(crate) fn share(song: &Arc<Song>) -> (r: Arc<Song>)
    ensures
        r == *song,
{
    Arc::clone(song)
}

impl Album {
    /// The album's songs, in order.
    pub fn iter(&self) -> (it: std::slice::Iter<'_, Arc<Song>>)
        ensures
            vstd::std_specs::iter::IteratorSpec::remaining(&it) == self.songs@.map_values(|s: Arc<Song>| &s),
    {
        broadcast use vstd::std_specs::slice::axiom_spec_slice_iter;

        let it = self.songs.as_slice().iter();
        proof {
            assert(self.songs@.as_ref() =~= self.songs@.map_values(|s: Arc<Song>| &s));
        }
        it
    }
}

/// Albums are the same album when their store identifiers agree.
impl PartialEq for Album {
    fn eq(&self, other: &Self) -> (r: bool) {
        self.id == other.id
    }
}

impl vstd::std_specs::cmp::PartialEqSpecImpl for Album {
    open spec fn obeys_eq_spec() -> bool {
        true
    }

    open spec fn eq_spec(&self, other: &Self) -> bool {
        self.id == other.id
    }
}

impl Eq for Album {}

/// `Hash::hash` of std for `i32`, which feeds the integer to the hasher;
/// nothing is stated of the hasher's state afterwards.
pub assume_specification<H: std::hash::Hasher>[<i32 as std::hash::Hash>::hash::<H>](v: &i32, state: &mut H);

/// `Hash::hash` of std for arrays, which feeds the items to the hasher;
/// nothing is stated of the hasher's state afterwards.
pub assume_specification<Elem: std::hash::Hash, const N: usize, H: std::hash::Hasher>[<[Elem; N] as std::hash::Hash>::hash::<H>](v: &[Elem; N], state: &mut H);

/// An album hashes by its store identifier and its digest.
impl std::hash::Hash for Album {
    fn hash<H: std::hash::Hasher>(&self, state: &mut H) {
        self.id.hash(state);
        self.hash.hash(state);
    }
}

} // verus!
