//! The decisions of the audio handler: what the output does on a signal of
//! the player or an event of the system's media controls, what it reports
//! back, and what the media controls show.

use crate::library::artist_names;
use crate::model::Song;
use crate::player::{MediaEvent, MediaSignal};
use crate::text::join_texts;
use crate::ui::artists_text;
use std::sync::Arc;
use vstd::prelude::*;

verus! {

/// Why a song could not be queued for playing.
pub enum PlayError {
    FileError,
    DecodeError,
}

/// The events of the system's media controls that the handler tells apart.
pub enum ControlEvent {
    Play,
    Pause,
    Toggle,
    /// Any other control, which the handler ignores.
    Other,
}

/// What reaches the handler besides the player's signals.
pub enum TrackedEvent {
    ControlEvent(ControlEvent),
    /// The output finished a song.
    NewSong,
}

/// What the audio output is told to do.
pub enum SinkCommand {
    Play,
    Pause,
    Nothing,
}

/// How the handler carries out a signal of the player.
pub enum SignalPlan {
    /// Stop what plays, queue the song and play.
    Restart(Arc<Song>),
    /// Seek to this position in milliseconds.
    Seek(u64),
}

/// Whether the handler can carry out a signal: it has no plan for the bare
/// play and pause signals.
pub open spec fn handles_signal(signal: MediaSignal) -> bool {
    signal is PlaySong || signal is NewPosition
}

/// How the handler carries out a signal of the player.
pub fn signal_plan(signal: MediaSignal) -> (plan: SignalPlan)
    requires
        handles_signal(signal),
    ensures
        match signal {
            MediaSignal::PlaySong(song) => plan == SignalPlan::Restart(song),
            MediaSignal::NewPosition(ms) => plan == SignalPlan::Seek(ms),
            _ => false,
        },
{
    match signal {
        MediaSignal::PlaySong(song) => SignalPlan::Restart(song),
        MediaSignal::NewPosition(ms) => SignalPlan::Seek(ms),
        _ => {
            proof {
                assert(false);
            }
            SignalPlan::Seek(0)
        },
    }
}

/// What the handler reports after trying to queue a song: that it is
/// queued, or that queueing failed.
pub fn queue_report(outcome: Result<(), PlayError>) -> (e: MediaEvent)
    ensures
        outcome is Ok ==> e == MediaEvent::Queued,
        outcome is Err ==> e == MediaEvent::FailedQueue,
{
    match outcome {
        Ok(()) => MediaEvent::Queued,
        Err(_) => MediaEvent::FailedQueue,
    }
}

/// What the handler reports after trying to seek: a failed seek ends the
/// song.
pub fn seek_report(seek_failed: bool) -> (e: Option<MediaEvent>)
    ensures
        seek_failed ==> e == Some(MediaEvent::EndedSong),
        !seek_failed ==> e is None,
{
    if seek_failed {
        Some(MediaEvent::EndedSong)
    } else {
        None
    }
}

/// What the output does on an event of the media controls, given whether it
/// is paused: play and pause are obeyed, toggle flips, others are ignored.
pub fn control_command(event: ControlEvent, paused: bool) -> (c: SinkCommand)
    ensures
        c == match event {
            ControlEvent::Play => SinkCommand::Play,
            ControlEvent::Pause => SinkCommand::Pause,
            ControlEvent::Toggle => if paused { SinkCommand::Play } else { SinkCommand::Pause },
            ControlEvent::Other => SinkCommand::Nothing,
        },
{
    match event {
        ControlEvent::Play => SinkCommand::Play,
        ControlEvent::Pause => SinkCommand::Pause,
        ControlEvent::Toggle => if paused {
            SinkCommand::Play
        } else {
            SinkCommand::Pause
        },
        ControlEvent::Other => SinkCommand::Nothing,
    }
}

/// What the handler does on a tracked event: the output command, and the
/// event reported to the player (a finished song ends the song).
pub fn tracked_event_action(event: TrackedEvent, paused: bool) -> (r: (SinkCommand, Option<MediaEvent>))
    ensures
        match event {
            TrackedEvent::ControlEvent(c) => r.1 is None && r.0 == match c {
                ControlEvent::Play => SinkCommand::Play,
                ControlEvent::Pause => SinkCommand::Pause,
                ControlEvent::Toggle => if paused { SinkCommand::Play } else { SinkCommand::Pause },
                ControlEvent::Other => SinkCommand::Nothing,
            },
            TrackedEvent::NewSong => r.0 == SinkCommand::Nothing && r.1 == Some(MediaEvent::EndedSong),
        },
{
    match event {
        TrackedEvent::ControlEvent(c) => (control_command(c, paused), None),
        TrackedEvent::NewSong => (SinkCommand::Nothing, Some(MediaEvent::EndedSong)),
    }
}

/// What the media controls are told about the song that plays.
pub struct Metadata {
    pub title: String,
    pub album: String,
    /// The artists joined with ", ".
    pub artist: String,
    pub duration_ms: u64,
}

/// The playback state the media controls show, with the position in
/// milliseconds.
pub enum Playback {
    Stopped,
    Paused(u64),
    Playing(u64),
}

/// What the media controls are updated with.
pub struct ControlsUpdate {
    pub metadata: Option<Metadata>,
    pub playback: Option<Playback>,
}

/// The update of the media controls: stopped when the output is empty;
/// nothing when no song is known to play; otherwise the song's metadata and
/// whether it is paused or playing, at the position.
pub fn controls_update(empty: bool, paused: bool, playing: Option<&Arc<Song>>, position_ms: u64) -> (u: ControlsUpdate)
    ensures
        empty ==> u.metadata is None && u.playback == Some(Playback::Stopped),
        !empty && playing is None ==> u.metadata is None && u.playback is None,
        !empty && playing is Some ==> {
            let song = playing->0;
            &&& u.metadata matches Some(m) && m.title@ == song.title@ && m.album@ == song.album@
                && m.artist@ == join_texts(artist_names(song.artists@), seq![',', ' '])
                && m.duration_ms == song.length_ms
            &&& u.playback == Some(if paused { Playback::Paused(position_ms) } else { Playback::Playing(position_ms) })
        },
{
    if empty {
        return ControlsUpdate { metadata: None, playback: Some(Playback::Stopped) };
    }
    match playing {
        None => ControlsUpdate { metadata: None, playback: None },
        Some(song) => {
            let metadata = Metadata {
                title: song.title.clone(),
                album: song.album.clone(),
                artist: artists_text(&song.artists),
                duration_ms: song.length_ms,
            };
            let playback = if paused {
                Playback::Paused(position_ms)
            } else {
                Playback::Playing(position_ms)
            };
            ControlsUpdate { metadata: Some(metadata), playback: Some(playback) }
        },
    }
}

} // verus!
