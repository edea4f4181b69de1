use rhymonic::audio::{song_from_bytes, song_from_read};
use rhymonic::model::{Error, Song, TagData, UncommittedSong};

fn tag(title: Option<&str>) -> TagData {
    TagData {
        title: title.map(|t| t.to_string()),
        track_artists: vec![],
        artist: None,
        genres: vec![],
        genre: None,
        album: None,
        album_artists: vec![],
        track: None,
        disk: None,
    }
}

fn names_artists(song: &Song) -> Vec<String> {
    song.artists.iter().map(|a| a.name.clone()).collect()
}

fn names_genres(song: &Song) -> Vec<String> {
    song.genres.iter().map(|g| g.name.clone()).collect()
}

fn chunk(id: &[u8; 4], body: &[u8]) -> Vec<u8> {
    let mut c = id.to_vec();
    c.extend_from_slice(&(body.len() as u32).to_le_bytes());
    c.extend_from_slice(body);
    if body.len() % 2 == 1 {
        c.push(0);
    }
    c
}

/// A mono 16-bit 8 kHz WAV file of one second, with an ID3v2.4 tag whose
/// only frame is the title, when one is given.
fn wav(title: Option<&str>) -> Vec<u8> {
    let mut fmt = vec![];
    fmt.extend_from_slice(&1u16.to_le_bytes());
    fmt.extend_from_slice(&1u16.to_le_bytes());
    fmt.extend_from_slice(&8000u32.to_le_bytes());
    fmt.extend_from_slice(&16000u32.to_le_bytes());
    fmt.extend_from_slice(&2u16.to_le_bytes());
    fmt.extend_from_slice(&16u16.to_le_bytes());
    let mut body = b"WAVE".to_vec();
    body.extend(chunk(b"fmt ", &fmt));
    body.extend(chunk(b"data", &vec![0u8; 16000]));
    if let Some(t) = title {
        let mut frame = b"TIT2".to_vec();
        let content_len = (1 + t.len()) as u8;
        frame.extend_from_slice(&[0, 0, 0, content_len, 0, 0, 3]);
        frame.extend_from_slice(t.as_bytes());
        let mut id3 = b"ID3".to_vec();
        id3.extend_from_slice(&[4, 0, 0, 0, 0, 0, frame.len() as u8]);
        id3.extend(frame);
        body.extend(chunk(b"ID3 ", &id3));
    }
    chunk(b"RIFF", &body)
}

#[test]
fn a_tag_without_title_is_invalid() {
    assert!(matches!(Song::from_tag(vec![], 0, tag(None)), Err(Error::InvalidData)));
}

#[test]
fn defaults_of_a_bare_tag() {
    let song = Song::from_tag(b"/m/a.flac".to_vec(), 1234, tag(Some("Title"))).unwrap();
    assert_eq!(song.title, "Title");
    assert_eq!(song.length_ms, 1234);
    assert_eq!(song.path, b"/m/a.flac".to_vec());
    assert_eq!(song.track_number, 1);
    assert_eq!(song.disc_number, 0);
    assert_eq!(names_artists(&song), vec!["Unknown Artist"]);
    assert_eq!(names_genres(&song), vec![""]);
    assert_eq!(song.album, "");
    assert!(song.album_artists.is_empty());
    assert!(song.image.is_none());
    assert!(song.artists.iter().all(|a| !a.committed));
}

#[test]
fn values_of_a_full_tag() {
    let mut t = tag(Some("Song"));
    t.track_artists = vec!["A".to_string(), "B".to_string()];
    t.artist = Some("ignored".to_string());
    t.genres = vec!["Rock,Pop".to_string(), "Jazz".to_string()];
    t.genre = Some("ignored".to_string());
    t.album = Some("Album".to_string());
    t.album_artists = vec!["AA".to_string()];
    t.track = Some(7);
    t.disk = Some(2);
    let song = Song::from_tag(vec![], 5, t).unwrap();
    assert_eq!(names_artists(&song), vec!["A", "B"]);
    assert_eq!(names_genres(&song), vec!["Rock", "Pop", "Jazz"]);
    assert_eq!(song.album, "Album");
    assert_eq!(song.album_artists, vec!["AA"]);
    assert_eq!(song.track_number, 7);
    assert_eq!(song.disc_number, 2);
}

#[test]
fn single_artist_and_genre_used_without_lists() {
    let mut t = tag(Some("Song"));
    t.artist = Some("Solo".to_string());
    t.genre = Some("Folk".to_string());
    let song = Song::from_tag(vec![], 5, t).unwrap();
    assert_eq!(names_artists(&song), vec!["Solo"]);
    assert_eq!(names_genres(&song), vec!["Folk"]);
}

#[test]
fn large_track_numbers_wrap_like_casts() {
    let mut t = tag(Some("Song"));
    t.track = Some(u32::MAX);
    t.disk = Some(1 << 31);
    let song = Song::from_tag(vec![], 5, t).unwrap();
    assert_eq!(song.track_number, u32::MAX as i32);
    assert_eq!(song.disc_number, (1u32 << 31) as i32);
}

#[test]
fn bytes_that_are_no_audio_file_are_a_metadata_error() {
    assert!(matches!(song_from_bytes(vec![], &[]), Err(Error::MetadataError)));
    assert!(matches!(song_from_bytes(vec![], b"not an audio file at all"), Err(Error::MetadataError)));
}

#[test]
fn an_audio_file_without_tag_is_invalid() {
    assert!(matches!(song_from_bytes(b"/m/x.wav".to_vec(), &wav(None)), Err(Error::InvalidData)));
}

#[test]
fn an_audio_file_gives_its_title_and_length() {
    let song = song_from_bytes(b"/m/x.wav".to_vec(), &wav(Some("Hello"))).unwrap();
    assert_eq!(song.title, "Hello");
    assert_eq!(song.length_ms, 1000);
    assert_eq!(song.path, b"/m/x.wav".to_vec());
    assert_eq!(names_artists(&song), vec!["Unknown Artist"]);
    assert_eq!(song.track_number, 1);
}

#[test]
fn an_uncommitted_song_carries_the_digest_of_its_bytes() {
    let bytes = wav(Some("Hello"));
    let u = UncommittedSong::from_bytes(vec![], &bytes).unwrap();
    assert_eq!(u.song.title, "Hello");
    assert_eq!(u.hash, rhymonic::digest::digest_bytes(&bytes));
    assert!(matches!(UncommittedSong::from_bytes(vec![], &[1, 2, 3]), Err(Error::MetadataError)));
}

#[test]
fn a_parse_decides_the_song() {
    assert!(matches!(song_from_read(vec![], None), Err(Error::MetadataError)));
    assert!(matches!(song_from_read(vec![], Some((None, 5))), Err(Error::InvalidData)));
    assert!(matches!(song_from_read(vec![], Some((Some(tag(None)), 5))), Err(Error::InvalidData)));
    let song = song_from_read(b"/m/s.mp3".to_vec(), Some((Some(tag(Some("Tune"))), 42))).unwrap();
    assert_eq!(song.title, "Tune");
    assert_eq!(song.length_ms, 42);
    assert_eq!(song.path, b"/m/s.mp3".to_vec());
    assert_eq!(names_artists(&song), vec!["Unknown Artist"]);
}
