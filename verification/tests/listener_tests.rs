use rhymonic::listener::{
    control_command, controls_update, queue_report, seek_report, signal_plan, tracked_event_action, ControlEvent,
    Playback, PlayError, SignalPlan, SinkCommand, TrackedEvent,
};
use rhymonic::model::{Artist, Song};
use rhymonic::player::{MediaEvent, MediaSignal};
use std::sync::Arc;

fn song() -> Arc<Song> {
    Arc::new(Song {
        title: "T".to_string(),
        length_ms: 61_000,
        path: vec![],
        track_number: 1,
        disc_number: 0,
        artists: vec![Artist::new("A".to_string()), Artist::new("B".to_string())],
        genres: vec![],
        album: "Al".to_string(),
        album_artists: vec![],
        image: None,
    })
}

#[test]
fn signals_become_plans() {
    let s = song();
    assert!(matches!(signal_plan(MediaSignal::PlaySong(s.clone())), SignalPlan::Restart(x) if x.title == "T"));
    assert!(matches!(signal_plan(MediaSignal::NewPosition(9)), SignalPlan::Seek(9)));
}

#[test]
fn reports() {
    assert!(matches!(queue_report(Ok(())), MediaEvent::Queued));
    assert!(matches!(queue_report(Err(PlayError::FileError)), MediaEvent::FailedQueue));
    assert!(matches!(queue_report(Err(PlayError::DecodeError)), MediaEvent::FailedQueue));
    assert!(matches!(seek_report(true), Some(MediaEvent::EndedSong)));
    assert!(seek_report(false).is_none());
}

#[test]
fn media_controls() {
    assert!(matches!(control_command(ControlEvent::Play, true), SinkCommand::Play));
    assert!(matches!(control_command(ControlEvent::Pause, true), SinkCommand::Pause));
    assert!(matches!(control_command(ControlEvent::Toggle, true), SinkCommand::Play));
    assert!(matches!(control_command(ControlEvent::Toggle, false), SinkCommand::Pause));
    assert!(matches!(control_command(ControlEvent::Other, false), SinkCommand::Nothing));
    assert!(matches!(
        tracked_event_action(TrackedEvent::NewSong, false),
        (SinkCommand::Nothing, Some(MediaEvent::EndedSong))
    ));
    assert!(matches!(
        tracked_event_action(TrackedEvent::ControlEvent(ControlEvent::Toggle), false),
        (SinkCommand::Pause, None)
    ));
}

#[test]
fn controls_show_song() {
    let s = song();
    let u = controls_update(true, false, Some(&s), 5);
    assert!(u.metadata.is_none());
    assert!(matches!(u.playback, Some(Playback::Stopped)));
    let u = controls_update(false, false, None, 5);
    assert!(u.metadata.is_none() && u.playback.is_none());
    let u = controls_update(false, true, Some(&s), 5);
    let m = u.metadata.unwrap();
    assert_eq!(m.title, "T");
    assert_eq!(m.album, "Al");
    assert_eq!(m.artist, "A, B");
    assert_eq!(m.duration_ms, 61_000);
    assert!(matches!(u.playback, Some(Playback::Paused(5))));
    let u = controls_update(false, false, Some(&s), 7);
    assert!(matches!(u.playback, Some(Playback::Playing(7))));
}
