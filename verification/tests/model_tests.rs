use rhymonic::model::{Album, Artist, Genre, InsertOutcome, Song};
use std::hash::{Hash, Hasher};
use std::sync::Arc;

#[test]
fn artist_commit_settles() {
    let mut a = Artist::new("A".to_string());
    assert!(a.settle::<&str>(InsertOutcome::Inserted).is_ok());
    assert!(!a.committed);
    assert!(a.settle::<&str>(InsertOutcome::UniqueViolation).is_ok());
    assert!(a.committed);
    let mut b = Artist::from("B".to_string());
    assert_eq!(b.settle(InsertOutcome::Failed("disk full")), Err("disk full"));
    assert!(!b.committed);
    assert!(Artist::stored("C".to_string()).committed);
    assert_eq!(b.duplicate().name, "B");
}

#[test]
fn genre_commit_settles() {
    let mut g = Genre::new("G".to_string());
    assert!(g.settle::<()>(InsertOutcome::UniqueViolation).is_ok());
    assert!(g.committed);
    let mut h = Genre::from("H".to_string());
    assert_eq!(h.settle(InsertOutcome::Failed(3)), Err(3));
    assert!(!h.committed);
    assert!(Genre::stored("I".to_string()).committed);
}

fn song(ms: u64) -> Song {
    Song {
        title: "t".to_string(),
        length_ms: ms,
        path: vec![],
        track_number: 1,
        disc_number: 0,
        artists: vec![],
        genres: vec![],
        album: String::new(),
        album_artists: vec![],
        image: None,
    }
}

#[test]
fn stored_length_wraps() {
    assert_eq!(song(1234).stored_length(), 1234);
    assert_eq!(song(1u64 << 32).stored_length(), 0);
    assert_eq!(song(u64::MAX).stored_length(), -1);
}

#[test]
fn albums_equal_by_id() {
    let a = Album::new(1, vec![Arc::new(song(1))], "A".to_string(), vec![], [0; 32]);
    let b = Album::new(1, vec![], "B".to_string(), vec![], [1; 32]);
    let c = Album::new(2, vec![], "A".to_string(), vec![], [0; 32]);
    assert!(a == b);
    assert!(a != c);
    assert_eq!(a.iter().count(), 1);
    assert_eq!(a.iter().next().unwrap().length_ms, 1);
}

fn hash_of(album: &Album) -> u64 {
    let mut h = std::collections::hash_map::DefaultHasher::new();
    album.hash(&mut h);
    h.finish()
}

#[test]
fn albums_hash_by_identifier_and_digest() {
    let a = Album::new(3, vec![], "A".to_string(), vec![], [1u8; 32]);
    let b = Album::new(3, vec![], "Other name".to_string(), vec![Artist::new("X".to_string())], [1u8; 32]);
    let c = Album::new(3, vec![], "A".to_string(), vec![], [2u8; 32]);
    assert_eq!(hash_of(&a), hash_of(&b));
    assert_ne!(hash_of(&a), hash_of(&c));
    assert!(a == c);
}
