use rhymonic::model::{Artist, Song, UncommittedSong};
use rhymonic::scan::{credited_artists, dedup, group_by_album, AlbumGroup};

fn found(title: &str, album: &str, album_artists: &[&str], artists: &[&str]) -> UncommittedSong {
    UncommittedSong {
        song: Song {
            title: title.to_string(),
            length_ms: 1,
            path: title.as_bytes().to_vec(),
            track_number: 1,
            disc_number: 0,
            artists: artists.iter().map(|a| Artist::new(a.to_string())).collect(),
            genres: vec![],
            album: album.to_string(),
            album_artists: album_artists.iter().map(|s| s.to_string()).collect(),
            image: None,
        },
        hash: [0u8; 32],
    }
}

fn names(artists: &[Artist]) -> Vec<String> {
    artists.iter().map(|a| a.name.clone()).collect()
}

fn titles(group: &AlbumGroup) -> Vec<String> {
    group.songs.iter().map(|s| s.song.title.clone()).collect()
}

#[test]
fn songs_grouped_by_album_and_album_artists() {
    let groups = group_by_album(vec![
        found("1", "A", &[], &["x"]),
        found("2", "B", &[], &["y"]),
        found("3", "A", &["P"], &["z"]),
        found("4", "A", &[], &["w"]),
        found("5", "B", &[], &["y"]),
    ]);
    assert_eq!(groups.len(), 3);
    assert_eq!(groups[0].name, "A");
    assert!(groups[0].album_artists.is_empty());
    assert_eq!(titles(&groups[0]), vec!["1", "4"]);
    assert_eq!(groups[1].name, "B");
    assert_eq!(titles(&groups[1]), vec!["2", "5"]);
    assert_eq!(groups[2].name, "A");
    assert_eq!(groups[2].album_artists, vec!["P"]);
    assert_eq!(titles(&groups[2]), vec!["3"]);
}

#[test]
fn no_songs_no_groups() {
    assert!(group_by_album(vec![]).is_empty());
}

#[test]
fn album_artists_credited_when_named() {
    let groups = group_by_album(vec![found("1", "A", &["P", "Q"], &["x"])]);
    let artists = credited_artists(&groups[0]);
    assert_eq!(names(&artists), vec!["P", "Q"]);
    assert!(artists.iter().all(|a| !a.committed));
}

#[test]
fn song_artists_credited_otherwise_without_repeats_in_a_row() {
    let groups = group_by_album(vec![
        found("1", "A", &[], &["x", "y"]),
        found("2", "A", &[], &["y", "z"]),
        found("3", "A", &[], &["x"]),
    ]);
    let artists = credited_artists(&groups[0]);
    assert_eq!(names(&artists), vec!["x", "y", "z", "x"]);
}

#[test]
fn dedup_like_vec_dedup() {
    let v = vec![
        Artist::new("a".to_string()),
        Artist::new("a".to_string()),
        Artist::stored("a".to_string()),
        Artist::stored("a".to_string()),
        Artist::new("b".to_string()),
        Artist::new("a".to_string()),
    ];
    let r = dedup(&v);
    let got: Vec<(String, bool)> = r.iter().map(|a| (a.name.clone(), a.committed)).collect();
    let mut expected: Vec<(String, bool)> = v.iter().map(|a| (a.name.clone(), a.committed)).collect();
    expected.dedup();
    assert_eq!(got, expected);
    assert_eq!(got.len(), 4);
    assert!(dedup(&vec![]).is_empty());
}
