use rhymonic::library::{identical, insert_sorted, names_of, search_songs, sorted_songs};
use rhymonic::model::{Album, Artist, Song};
use rhymonic::order::{compare_bytes, compare_songs};
use std::sync::Arc;

fn song(title: &str, album: &str, disc: i32, track: i32, path: &str) -> Song {
    Song {
        title: title.to_string(),
        length_ms: 180_000,
        path: path.as_bytes().to_vec(),
        track_number: track,
        disc_number: disc,
        artists: vec![Artist::new("Someone".to_string())],
        genres: vec![],
        album: album.to_string(),
        album_artists: vec![],
        image: None,
    }
}

fn titles(songs: &Vec<Arc<Song>>) -> Vec<String> {
    songs.iter().map(|s| s.title.clone()).collect()
}

#[test]
fn bytes_compare_like_slices() {
    let cases: [(&[u8], &[u8]); 6] =
        [(b"", b""), (b"a", b""), (b"", b"a"), (b"ab", b"ac"), (b"abc", b"ab"), (b"z", b"az")];
    for (a, b) in cases {
        let expected = match a.cmp(b) {
            std::cmp::Ordering::Less => -1,
            std::cmp::Ordering::Equal => 0,
            std::cmp::Ordering::Greater => 1,
        };
        assert_eq!(compare_bytes(a, b), expected);
    }
}

#[test]
fn songs_order_by_title_then_album_disc_track_path() {
    let a = song("Alpha", "Z", 9, 9, "/z");
    let b = song("Beta", "A", 0, 0, "/a");
    assert_eq!(compare_songs(&a, &b), -1);
    assert_eq!(compare_songs(&b, &a), 1);
    let c = song("Alpha", "A", 9, 9, "/z");
    assert_eq!(compare_songs(&c, &a), -1);
    let d = song("Alpha", "Z", 1, 9, "/z");
    assert_eq!(compare_songs(&d, &a), -1);
    let e = song("Alpha", "Z", 9, -3, "/z");
    assert_eq!(compare_songs(&e, &a), -1);
    let f = song("Alpha", "Z", 9, 9, "/y");
    assert_eq!(compare_songs(&f, &a), -1);
    assert_eq!(compare_songs(&a, &song("Alpha", "Z", 9, 9, "/z")), 0);
}

#[test]
fn search_finds_first_of_equal_keys() {
    let list: Vec<Arc<Song>> = vec![
        Arc::new(song("A", "x", 0, 1, "/1")),
        Arc::new(song("B", "x", 0, 1, "/2")),
        Arc::new(song("B", "x", 0, 1, "/2")),
        Arc::new(song("D", "x", 0, 1, "/4")),
    ];
    assert_eq!(search_songs(&list, &song("B", "x", 0, 1, "/2")), Ok(1));
    assert_eq!(search_songs(&list, &song("A", "x", 0, 1, "/1")), Ok(0));
    assert_eq!(search_songs(&list, &song("C", "x", 0, 1, "/3")), Err(3));
    assert_eq!(search_songs(&list, &song("0", "x", 0, 1, "/0")), Err(0));
    assert_eq!(search_songs(&list, &song("E", "x", 0, 1, "/5")), Err(4));
    assert_eq!(search_songs(&vec![], &song("E", "x", 0, 1, "/5")), Err(0));
}

#[test]
fn insertion_keeps_order() {
    let mut list: Vec<Arc<Song>> = Vec::new();
    for t in ["m", "c", "x", "a", "c"] {
        insert_sorted(&mut list, Arc::new(song(t, "", 0, 1, t)));
    }
    assert_eq!(titles(&list), vec!["a", "c", "c", "m", "x"]);
}

#[test]
fn songs_of_albums_sorted_with_duplicates() {
    let first = Album::new(
        1,
        vec![Arc::new(song("Zeta", "One", 0, 1, "/z")), Arc::new(song("Beta", "One", 0, 2, "/b"))],
        "One".to_string(),
        vec![],
        [0u8; 32],
    );
    let second = Album::new(
        2,
        vec![Arc::new(song("Alpha", "Two", 0, 1, "/a")), Arc::new(song("Beta", "One", 0, 2, "/b"))],
        "Two".to_string(),
        vec![],
        [1u8; 32],
    );
    let sorted = sorted_songs(&vec![first, second]);
    assert_eq!(titles(&sorted), vec!["Alpha", "Beta", "Beta", "Zeta"]);
    assert!(sorted_songs(&vec![]).is_empty());
}

#[test]
fn shared_item_in_either_order() {
    let a = vec!["x".to_string(), "y".to_string()];
    let b = vec!["z".to_string(), "y".to_string()];
    let c = vec!["q".to_string()];
    assert!(identical(&a, &b));
    assert!(identical(&b, &a));
    assert!(!identical(&a, &c));
    assert!(!identical(&c, &a));
    assert!(!identical(&vec![], &a));
    assert!(!identical(&a, &vec![]));
}

#[test]
fn artist_names_in_order() {
    let artists = vec![Artist::new("A".to_string()), Artist::stored("B".to_string())];
    assert_eq!(names_of(&artists), vec!["A", "B"]);
}
