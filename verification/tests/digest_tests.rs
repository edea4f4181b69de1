use rhymonic::digest::{combine, digest_bytes, hash_songs};
use rhymonic::model::{digest_from_bytes, Artist, Song, UncommittedSong};

fn uncommitted(title: &str, hash: [u8; 32]) -> UncommittedSong {
    UncommittedSong {
        song: Song {
            title: title.to_string(),
            length_ms: 1000,
            path: title.as_bytes().to_vec(),
            track_number: 1,
            disc_number: 0,
            artists: vec![Artist::new("X".to_string())],
            genres: vec![],
            album: "Album".to_string(),
            album_artists: vec![],
            image: None,
        },
        hash,
    }
}

fn digest(seed: u8) -> [u8; 32] {
    let mut d = [0u8; 32];
    for (i, b) in d.iter_mut().enumerate() {
        *b = seed.wrapping_mul(31).wrapping_add(i as u8 * 7);
    }
    d
}

#[test]
fn combine_is_bytewise_xor() {
    assert_eq!(combine(&[0b1100u8, 0xff, 0], &[0b1010u8, 0x0f, 0]), [0b0110u8, 0xf0, 0]);
    assert_eq!(combine::<0>(&[], &[]), [0u8; 0]);
    let a = digest(1);
    assert_eq!(combine(&a, &[0u8; 32]), a);
    assert_eq!(combine(&a, &a), [0u8; 32]);
}

#[test]
fn album_digest_of_no_songs_is_zero() {
    assert_eq!(hash_songs(&vec![]), [0u8; 32]);
}

#[test]
fn album_digest_of_one_song_is_its_digest() {
    assert_eq!(hash_songs(&vec![uncommitted("a", digest(3))]), digest(3));
}

#[test]
fn album_digest_ignores_song_order() {
    let forward = vec![uncommitted("a", digest(1)), uncommitted("b", digest(2)), uncommitted("c", digest(3))];
    let backward = vec![uncommitted("c", digest(3)), uncommitted("a", digest(1)), uncommitted("b", digest(2))];
    assert_eq!(hash_songs(&forward), hash_songs(&backward));
    let expected = combine(&combine(&digest(1), &digest(2)), &digest(3));
    assert_eq!(hash_songs(&forward), expected);
}

#[test]
fn same_digest_twice_cancels() {
    let with_pair = vec![uncommitted("a", digest(1)), uncommitted("b", digest(9)), uncommitted("c", digest(9))];
    assert_eq!(hash_songs(&with_pair), digest(1));
}

#[test]
fn stored_digest_needs_32_bytes() {
    let bytes: Vec<u8> = (0..32).collect();
    let d = digest_from_bytes(&bytes).unwrap();
    assert_eq!(d.to_vec(), bytes);
    assert_eq!(digest_from_bytes(&vec![1, 2, 3]), None);
    assert_eq!(digest_from_bytes(&vec![0; 33]), None);
    assert_eq!(digest_from_bytes(&vec![]), None);
}

#[test]
fn digest_of_no_bytes_is_the_four_seeds() {
    let d = digest_bytes(&[]);
    for lane in 0..4u64 {
        let seed = 0xcbf29ce484222325u64 ^ lane;
        assert_eq!(&d[lane as usize * 8..lane as usize * 8 + 8], &seed.to_le_bytes());
    }
}

#[test]
fn digest_of_a_byte_starts_with_its_fnv1a() {
    let d = digest_bytes(b"a");
    assert_eq!(&d[0..8], &0xaf63dc4c8601ec8cu64.to_le_bytes());
}

#[test]
fn digest_lanes_follow_fnv1a() {
    let bytes = b"hello, world";
    let d = digest_bytes(bytes);
    for lane in 0..4u64 {
        let mut h = 0xcbf29ce484222325u64 ^ lane;
        for b in bytes.iter() {
            h = (h ^ *b as u64).wrapping_mul(0x100000001b3);
        }
        assert_eq!(&d[lane as usize * 8..lane as usize * 8 + 8], &h.to_le_bytes());
    }
    assert_ne!(digest_bytes(b"hello, world"), digest_bytes(b"hello, world!"));
}
