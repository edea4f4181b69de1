use rhymonic::model::{Artist, Song};
use rhymonic::ui::{artists_text, page_label, sidebar_highlighted, song_row_texts, visible_window, Page};

#[test]
fn row_texts() {
    let song = Song {
        title: "Title".to_string(),
        length_ms: 3_725_000,
        path: vec![],
        track_number: -3,
        disc_number: 0,
        artists: vec![Artist::new("A".to_string()), Artist::new("B".to_string())],
        genres: vec![],
        album: "Album".to_string(),
        album_artists: vec![],
        image: None,
    };
    assert_eq!(song_row_texts(&song), vec!["-3", "Title", "Album", "A, B", "1:02:05"]);
}

#[test]
fn artists_joined() {
    assert_eq!(artists_text(&vec![]), "");
    assert_eq!(artists_text(&vec![Artist::new("Solo".to_string())]), "Solo");
}

#[test]
fn sidebar_marks_current_page() {
    assert!(sidebar_highlighted(Page::Songs, Page::Songs));
    assert!(!sidebar_highlighted(Page::Queue, Page::Songs));
    assert!(sidebar_highlighted(Page::Albums, Page::Album(3)));
    assert!(!sidebar_highlighted(Page::Songs, Page::Album(3)));
    assert!(sidebar_highlighted(Page::Album(3), Page::Album(3)));
    assert!(!sidebar_highlighted(Page::Album(2), Page::Album(3)));
}

#[test]
fn page_labels_match_debug() {
    for p in [Page::Songs, Page::Queue, Page::Albums, Page::Album(12)] {
        assert_eq!(page_label(p), format!("{:?}", p));
    }
}

#[test]
fn window_of_rows() {
    assert_eq!(visible_window(0, 10, 100), (10, 90));
    assert_eq!(visible_window(95, 10, 100), (100, 0));
    assert_eq!(visible_window(100, 1, 100), (100, 0));
    assert_eq!(visible_window(0, 5, 0), (0, 0));
}
