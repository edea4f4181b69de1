use rhymonic::model::{Album, Artist, Song};
use rhymonic::player::{App, MediaControl, MediaEvent, MediaSignal, Message, FOLLOWING_SIZE};
use rhymonic::ui::Page;
use std::sync::Arc;

fn song(title: &str, album: &str, album_artists: &[&str]) -> Arc<Song> {
    Arc::new(Song {
        title: title.to_string(),
        length_ms: 1000 * (title.len() as u64),
        path: format!("/music/{}", title).into_bytes(),
        track_number: 1,
        disc_number: 0,
        artists: vec![Artist::new("Band".to_string())],
        genres: vec![],
        album: album.to_string(),
        album_artists: album_artists.iter().map(|s| s.to_string()).collect(),
        image: None,
    })
}

fn album(id: i32, name: &str, artists: &[&str], songs: Vec<Arc<Song>>) -> Album {
    Album::new(
        id,
        songs,
        name.to_string(),
        artists.iter().map(|a| Artist::stored(a.to_string())).collect(),
        [id as u8; 32],
    )
}

fn library(n: usize) -> App {
    let songs: Vec<Arc<Song>> = (0..n).map(|i| song(&format!("song{:03}", i), "Big", &[])).collect();
    App::from_albums(vec![album(1, "Big", &["Band"], songs)])
}

fn titles(songs: &Vec<Arc<Song>>) -> Vec<String> {
    songs.iter().map(|s| s.title.clone()).collect()
}

fn played(signal: Option<MediaSignal>) -> String {
    match signal {
        Some(MediaSignal::PlaySong(s)) => s.title.clone(),
        _ => panic!("expected a song to play"),
    }
}

#[test]
fn new_player_lists_songs_sorted() {
    let app = App::from_albums(vec![
        album(1, "B", &[], vec![song("b", "B", &[]), song("d", "B", &[])]),
        album(2, "A", &[], vec![song("c", "A", &[]), song("a", "A", &[])]),
    ]);
    assert_eq!(titles(&app.songs), vec!["a", "b", "c", "d"]);
    assert!(app.queue.is_empty());
    assert_eq!(app.queue_position, 0);
    assert!(!app.connected && !app.playing);
    assert_eq!(app.page, Page::Songs);
    assert_eq!(app.albums.len(), 2);
}

#[test]
fn play_fills_queue_with_following_songs() {
    let mut app = library(80);
    let first = app.songs[10].clone();
    let signal = app.update(Message::Play(first));
    assert_eq!(played(signal), "song010");
    assert_eq!(app.queue_position, 0);
    assert_eq!(app.queue.len(), 1 + FOLLOWING_SIZE - 1);
    assert_eq!(app.queue[0].title, "song010");
    assert_eq!(app.queue[1].title, "song011");
    assert_eq!(app.queue.last().unwrap().title, "song059");
}

#[test]
fn fill_stops_at_end_of_library() {
    let mut app = library(5);
    let third = app.songs[2].clone();
    app.update(Message::Play(third));
    assert_eq!(titles(&app.queue), vec!["song002", "song003", "song004"]);
    assert_eq!(app.fill_queue(), None);
}

#[test]
fn fill_of_empty_queue_stops() {
    let mut app = library(5);
    assert_eq!(app.fill_queue(), None);
    assert!(app.queue.is_empty());
}

#[test]
fn fill_reports_success_when_full() {
    let mut app = library(100);
    let first = app.songs[0].clone();
    app.update(Message::Play(first));
    assert_eq!(app.queue.len(), FOLLOWING_SIZE);
    assert_eq!(app.fill_queue(), Some(()));
    assert_eq!(app.queue.len(), FOLLOWING_SIZE);
}

#[test]
fn fill_stops_at_unlisted_song() {
    let mut app = library(10);
    app.update(Message::Queue(song("stranger", "Else", &[])));
    assert_eq!(app.fill_queue(), None);
    assert_eq!(titles(&app.queue), vec!["stranger"]);
}

#[test]
fn ended_song_moves_on_and_tops_up() {
    let mut app = library(100);
    let first = app.songs[0].clone();
    app.update(Message::Play(first));
    let signal = app.update(Message::Media(MediaEvent::EndedSong));
    assert_eq!(played(signal), "song001");
    assert_eq!(app.queue_position, 1);
    assert_eq!(app.queue.len(), FOLLOWING_SIZE + 1);
    let signal = app.update(Message::Media(MediaEvent::FailedQueue));
    assert_eq!(played(signal), "song002");
    assert_eq!(app.queue_position, 2);
}

#[test]
fn next_then_prev_returns() {
    let mut app = library(20);
    let first = app.songs[3].clone();
    app.update(Message::Play(first));
    let before = app.queue_position;
    assert_eq!(played(app.handle_control(MediaControl::Next)), "song004");
    assert_eq!(played(app.handle_control(MediaControl::Prev)), "song003");
    assert_eq!(app.queue_position, before);
}

#[test]
fn controls_only_where_the_queue_allows() {
    let mut app = library(3);
    assert!(!app.can_accept(&Message::Control(MediaControl::Next)));
    assert!(!app.can_accept(&Message::Control(MediaControl::Prev)));
    assert!(!app.can_accept(&Message::Media(MediaEvent::EndedSong)));
    assert!(app.can_accept(&Message::Control(MediaControl::PlayPause)));
    let first = app.songs[0].clone();
    app.update(Message::Play(first));
    assert!(app.can_accept(&Message::Control(MediaControl::Next)));
    assert!(!app.can_accept(&Message::Control(MediaControl::Prev)));
    app.update(Message::Control(MediaControl::Next));
    app.update(Message::Control(MediaControl::Next));
    assert!(!app.can_accept(&Message::Control(MediaControl::Next)));
    assert!(!app.can_accept(&Message::Media(MediaEvent::FailedQueue)));
    assert!(app.can_accept(&Message::Control(MediaControl::Prev)));
}

#[test]
fn play_pause_follows_playing_flag() {
    let mut app = library(1);
    assert!(matches!(app.update(Message::Control(MediaControl::PlayPause)), Some(MediaSignal::Play)));
    app.update(Message::Media(MediaEvent::Play));
    assert!(app.playing);
    assert!(matches!(app.update(Message::Control(MediaControl::PlayPause)), Some(MediaSignal::Pause)));
    app.update(Message::Media(MediaEvent::Pause));
    assert!(!app.playing);
    assert!(matches!(app.update(Message::Control(MediaControl::Resume)), Some(MediaSignal::Play)));
    assert!(matches!(app.update(Message::Control(MediaControl::Pause)), Some(MediaSignal::Pause)));
}

#[test]
fn connect_seek_and_page() {
    let mut app = library(1);
    assert!(app.update(Message::Media(MediaEvent::Connect)).is_none());
    assert!(app.connected);
    assert!(matches!(app.update(Message::SetPosition(4200)), Some(MediaSignal::NewPosition(4200))));
    assert!(app.update(Message::SetPage(Page::Album(0))).is_none());
    assert_eq!(app.page, Page::Album(0));
}

#[test]
fn queue_appends() {
    let mut app = library(3);
    assert!(app.update(Message::Queue(app.songs[2].clone())).is_none());
    assert!(app.update(Message::Queue(app.songs[0].clone())).is_none());
    assert_eq!(titles(&app.queue), vec!["song002", "song000"]);
    assert_eq!(app.queue_position, 0);
}

#[test]
fn inserting_a_song_twice_changes_nothing_more() {
    let mut app = library(3);
    let s = song("new", "Big", &[]);
    app.insert_song(s.clone());
    assert_eq!(titles(&app.songs), vec!["new", "song000", "song001", "song002"]);
    assert_eq!(app.albums[0].songs.len(), 4);
    app.insert_song(s.clone());
    assert_eq!(app.songs.len(), 4);
    assert_eq!(app.albums[0].songs.len(), 4);
}

#[test]
fn inserted_song_joins_album_sharing_an_artist() {
    let mut app = App::from_albums(vec![
        album(1, "Same", &["Other"], vec![]),
        album(2, "Same", &["Band", "Guest"], vec![]),
        album(3, "Different", &["Band"], vec![]),
    ]);
    app.insert_song(song("x", "Same", &["Guest"]));
    assert_eq!(app.albums[0].songs.len(), 0);
    assert_eq!(app.albums[1].songs.len(), 1);
    assert_eq!(app.albums[2].songs.len(), 0);
    app.insert_song(song("y", "Same", &[]));
    assert_eq!(app.albums[0].songs.len(), 1);
    app.insert_song(song("z", "Same", &["Nobody"]));
    assert_eq!(app.albums[0].songs.len(), 1);
    assert_eq!(app.albums[1].songs.len(), 1);
    assert_eq!(titles(&app.songs), vec!["x", "y", "z"]);
}

#[test]
fn done_import_adds_songs_then_albums() {
    let mut app = library(2);
    let imported = album(7, "New", &["Band"], vec![song("fresh", "New", &[]), song("song000", "Big", &[])]);
    assert!(app.update(Message::DoneImport(vec![imported])).is_none());
    assert_eq!(app.albums.len(), 2);
    assert_eq!(app.albums[1].id, 7);
    assert_eq!(titles(&app.songs), vec!["fresh", "song000", "song001"]);
}

#[test]
fn current_length_of_queue_position() {
    let mut app = library(3);
    assert_eq!(app.current_length_ms(), 0);
    let first = app.songs[0].clone();
    app.update(Message::Play(first));
    assert_eq!(app.current_length_ms(), 7000);
}

#[test]
fn a_queued_report_changes_nothing() {
    let mut app = library(3);
    let first = app.songs[0].clone();
    app.update(Message::Play(first));
    let before = (app.queue.len(), app.queue_position, app.playing, app.connected);
    assert!(app.update(Message::Media(MediaEvent::Queued)).is_none());
    assert_eq!((app.queue.len(), app.queue_position, app.playing, app.connected), before);
}
