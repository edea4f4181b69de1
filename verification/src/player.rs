//! The player's state and how it answers the messages of the window and the
//! events of the audio backend: the library of songs and albums, the play
//! queue and the position in it, and the signals sent to the backend.

use crate::library::{
    artist_names, identical, is_boundary, lemma_boundary_exists, lemma_insert_sorted, lemma_lower_bound, lower_bound, names_of, search_songs,
    share_item, sorted_songs, texts, album_songs,
};
use crate::model::{share, Album, AlbumView, Song};
use crate::order::{lemma_song_order_antisym, lemma_song_order_trans, song_of, song_order, sorted};
use crate::ui::Page;
use std::sync::Arc;
use vstd::prelude::*;

verus! {

/// How many songs the queue holds ahead of the one playing, when the library
/// has enough.
pub const FOLLOWING_SIZE: usize = 50;

/// Playback controls of the window.
#[derive(Clone, Copy, Debug)]
pub enum MediaControl {
    Next,
    Prev,
    Resume,
    Pause,
    PlayPause,
}

/// What the audio backend reports.
#[derive(Clone, Copy, Debug)]
pub enum MediaEvent {
    /// The backend is up and listens to signals.
    Connect,
    /// The song the player sent is queued and plays.
    Queued,
    EndedSong,
    FailedQueue,
    Play,
    Pause,
}

/// What the player asks of the audio backend.
#[derive(Clone, Debug)]
pub enum MediaSignal {
    PlaySong(Arc<Song>),
    /// Seek to this position, in milliseconds.
    NewPosition(u64),
    Pause,
    Play,
}

/// The messages of the window that change the player's state.
#[derive(Clone, Debug)]
pub enum Message {
    Queue(Arc<Song>),
    Play(Arc<Song>),
    Media(MediaEvent),
    SetPage(Page),
    /// Seek to this position, in milliseconds.
    SetPosition(u64),
    Control(MediaControl),
    DoneImport(Vec<Album>),
}

/// The player's state.
pub struct App {
    pub albums: Vec<Album>,
    /// Every song of the library, in the library's order.
    pub songs: Vec<Arc<Song>>,
    pub queue: Vec<Arc<Song>>,
    pub queue_position: usize,
    pub connected: bool,
    pub playing: bool,
    pub page: Page,
}

/// The player's state as the contracts see it.
pub struct AppView {
    pub albums: Seq<AlbumView>,
    pub songs: Seq<Arc<Song>>,
    pub queue: Seq<Arc<Song>>,
    pub queue_position: int,
    pub connected: bool,
    pub playing: bool,
    pub page: Page,
}

pub open spec fn album_views(albums: Seq<Album>) -> Seq<AlbumView> {
    albums.map_values(|a: Album| a@)
}

impl View for App {
    type V = AppView;

    open spec fn view(&self) -> AppView {
        AppView {
            albums: album_views(self.albums@),
            songs: self.songs@,
            queue: self.queue@,
            queue_position: self.queue_position as int,
            connected: self.connected,
            playing: self.playing,
            page: self.page,
        }
    }
}

/// The state every operation keeps: the song list is sorted and the position
/// lies within the queue or just past it.
pub open spec fn well_formed(v: AppView) -> bool {
    &&& sorted(v.songs)
    &&& 0 <= v.queue_position <= v.queue.len()
}

/// An album takes a new song when its name is the song's album and either
/// the song names no album artists or one of them is among the album's.
pub open spec fn accepts_song(a: AlbumView, song: Song) -> bool {
    &&& a.name@ == song.album@
    &&& (song.album_artists@.len() == 0 || share_item(
        texts(song.album_artists@),
        artist_names(a.artists),
    ))
}

/// The first album from position `from` on that takes the song, or the
/// number of albums where none does.
pub open spec fn first_accepting(albums: Seq<AlbumView>, song: Song, from: int) -> int
    decreases albums.len() - from,
{
    if from < 0 || from >= albums.len() {
        albums.len() as int
    } else if accepts_song(albums[from], song) {
        from
    } else {
        first_accepting(albums, song, from + 1)
    }
}

pub open spec fn with_song(a: AlbumView, song: Arc<Song>) -> AlbumView {
    AlbumView { songs: a.songs.push(song), ..a }
}

/// Adding a song to the library: a song whose key is already listed is
/// ignored; otherwise it goes into the sorted list and to the end of the first
/// album that takes it.
pub open spec fn insert_song_spec(v: AppView, song: Arc<Song>) -> AppView {
    let i: int = lower_bound(v.songs, song_of(song));
    if i < v.songs.len() && song_order(song_of(v.songs[i]), song_of(song)) == 0 {
        v
    } else {
        let k: int = first_accepting(v.albums, song_of(song), 0);
        AppView {
            songs: v.songs.insert(i, song),
            albums: if k < v.albums.len() {
                v.albums.update(k, with_song(v.albums[k], song))
            } else {
                v.albums
            },
            ..v
        }
    }
}

/// Adding the songs one after the other.
pub open spec fn insert_all_spec(v: AppView, songs: Seq<Arc<Song>>) -> AppView
    decreases songs.len(),
{
    if songs.len() == 0 {
        v
    } else {
        insert_song_spec(insert_all_spec(v, songs.drop_last()), songs.last())
    }
}

/// The song listed after the first song of the same key as `last`, if any.
pub open spec fn next_in_list(songs: Seq<Arc<Song>>, last: Song) -> Option<Arc<Song>> {
    let i: int = lower_bound(songs, last);
    if 0 <= i && i + 1 < songs.len() && song_order(song_of(songs[i]), last) == 0 {
        Some(songs[i + 1])
    } else {
        None
    }
}

/// Appending up to `n` songs, each the one listed after the queue's last; the
/// flag says whether all `n` were found.
pub open spec fn extend_queue(songs: Seq<Arc<Song>>, queue: Seq<Arc<Song>>, n: nat) -> (Seq<Arc<Song>>, bool)
    decreases n,
{
    if n == 0 {
        (queue, true)
    } else if queue.len() == 0 {
        (queue, false)
    } else {
        match next_in_list(songs, song_of(queue.last())) {
            Some(x) => extend_queue(songs, queue.push(x), (n - 1) as nat),
            None => (queue, false),
        }
    }
}

/// How many songs the queue lacks ahead of the position.
pub open spec fn lacking(len: int, pos: int) -> nat {
    if len - pos >= FOLLOWING_SIZE { 0 } else { (FOLLOWING_SIZE - (len - pos)) as nat }
}

/// Topping up the queue.
pub open spec fn fill_spec(v: AppView) -> (AppView, bool) {
    let (q, ok) = extend_queue(v.songs, v.queue, lacking(v.queue.len() as int, v.queue_position));
    (AppView { queue: q, ..v }, ok)
}

pub open spec fn handle_event_spec(v: AppView, e: MediaEvent) -> (AppView, Option<MediaSignal>) {
    match e {
        MediaEvent::Connect => (AppView { connected: true, ..v }, None),
        MediaEvent::Play => (AppView { playing: true, ..v }, None),
        MediaEvent::Pause => (AppView { playing: false, ..v }, None),
        MediaEvent::Queued => (v, None),
        _ => (
            fill_spec(AppView { queue_position: v.queue_position + 1, ..v }).0,
            Some(MediaSignal::PlaySong(v.queue[v.queue_position + 1])),
        ),
    }
}

pub open spec fn handle_control_spec(v: AppView, c: MediaControl) -> (AppView, Option<MediaSignal>) {
    match c {
        MediaControl::Next => (
            AppView { queue_position: v.queue_position + 1, ..v },
            Some(MediaSignal::PlaySong(v.queue[v.queue_position + 1])),
        ),
        MediaControl::Prev => (
            fill_spec(AppView { queue_position: v.queue_position - 1, ..v }).0,
            Some(MediaSignal::PlaySong(v.queue[v.queue_position - 1])),
        ),
        MediaControl::Resume => (v, Some(MediaSignal::Play)),
        MediaControl::Pause => (v, Some(MediaSignal::Pause)),
        MediaControl::PlayPause => (
            v,
            Some(if v.playing { MediaSignal::Pause } else { MediaSignal::Play }),
        ),
    }
}

pub open spec fn update_spec(v: AppView, m: Message) -> (AppView, Option<MediaSignal>) {
    match m {
        Message::Media(e) => handle_event_spec(v, e),
        Message::Control(c) => handle_control_spec(v, c),
        Message::SetPosition(p) => (v, Some(MediaSignal::NewPosition(p))),
        Message::Queue(s) => (AppView { queue: v.queue.push(s), ..v }, None),
        Message::Play(s) => (
            fill_spec(AppView { queue: seq![s], queue_position: 0, ..v }).0,
            Some(MediaSignal::PlaySong(s)),
        ),
        Message::SetPage(p) => (AppView { page: p, ..v }, None),
        Message::DoneImport(albums) => {
            let w = insert_all_spec(v, album_songs(albums@));
            (AppView { albums: w.albums + album_views(albums@), ..w }, None)
        },
    }
}

/// The messages the player can take in a state; the others would move the
/// queue position out of the queue.
pub open spec fn accepts_event(v: AppView, e: MediaEvent) -> bool {
    match e {
        MediaEvent::EndedSong | MediaEvent::FailedQueue => v.queue_position + 1 < v.queue.len(),
        _ => true,
    }
}

pub open spec fn accepts_control(v: AppView, c: MediaControl) -> bool {
    match c {
        MediaControl::Next => v.queue_position + 1 < v.queue.len(),
        MediaControl::Prev => v.queue_position >= 1,
        _ => true,
    }
}

pub open spec fn accepts_message(v: AppView, m: Message) -> bool {
    match m {
        Message::Media(e) => accepts_event(v, e),
        Message::Control(c) => accepts_control(v, c),
        _ => true,
    }
}


impl App {
    /// The player for a library of albums: every song of them in the sorted
    /// list, an empty queue, nothing connected or playing, the song page
    /// shown.
    pub fn from_albums(albums: Vec<Album>) -> (app: App)
        ensures
            well_formed(app@),
            app.albums@ == albums@,
            app@.songs.to_multiset() =~= album_songs(albums@).to_multiset(),
            app@.queue.len() == 0,
            app.queue_position == 0,
            !app.connected,
            !app.playing,
            app.page == Page::Songs,
    {
        let songs = sorted_songs(&albums);
        App {
            albums,
            songs,
            queue: Vec::new(),
            queue_position: 0,
            connected: false,
            playing: false,
            page: Page::Songs,
        }
    }

    /// Whether the player can take the message in its current state.
    pub fn can_accept(&self, message: &Message) -> (b: bool)
        ensures
            b == accepts_message(self@, *message),
    {
        match message {
            Message::Media(MediaEvent::EndedSong) | Message::Media(MediaEvent::FailedQueue)
            | Message::Control(MediaControl::Next) => self.queue_position < self.queue.len()
                && self.queue.len() - self.queue_position > 1,
            Message::Control(MediaControl::Prev) => self.queue_position >= 1,
            _ => true,
        }
    }

    /// Tops up the queue: while it holds fewer than `FOLLOWING_SIZE` songs
    /// from the position on, appends the song listed after its last one.
    /// `None` when it stopped early: the queue was empty, its last song is not
    /// listed, or the list has nothing after it.
    pub fn fill_queue(&mut self) -> (r: Option<()>)
        requires
            well_formed(old(self)@),
        ensures
            final(self)@ == fill_spec(old(self)@).0,
            r is Some == fill_spec(old(self)@).1,
            well_formed(final(self)@),
    {
        let lack: usize = FOLLOWING_SIZE - (if self.queue.len() - self.queue_position >= FOLLOWING_SIZE {
            FOLLOWING_SIZE
        } else {
            self.queue.len() - self.queue_position
        });
        let ghost v = self@;
        let ghost target = fill_spec(self@);
        assert(lack == lacking(self.queue@.len() as int, self.queue_position as int));
        let mut k: usize = 0;
        while k < lack
            invariant
                k <= lack,
                v == old(self)@,
                target == fill_spec(v),
                extend_queue(v.songs, v.queue, lack as nat) == extend_queue(self@.songs, self@.queue, (lack - k) as nat),
                self@ == (AppView { queue: self@.queue, ..v }),
                well_formed(self@),
                target.0 == (AppView { queue: extend_queue(self@.songs, self@.queue, (lack - k) as nat).0, ..v }),
                target.1 == extend_queue(self@.songs, self@.queue, (lack - k) as nat).1,
            decreases lack - k,
        {
            if self.queue.len() == 0 {
                assert(extend_queue(self@.songs, self@.queue, (lack - k) as nat) == (self@.queue, false));
                return None;
            }
            let ghost last = song_of(self@.queue.last());
            let position: usize = match search_songs(&self.songs, &self.queue[self.queue.len() - 1]) {
                Ok(p) => p,
                Err(_) => {
                    assert(next_in_list(self@.songs, last) is None);
                    assert(extend_queue(self@.songs, self@.queue, (lack - k) as nat) == (self@.queue, false));
                    return None;
                },
            };
            if position >= self.songs.len() - 1 {
                assert(next_in_list(self@.songs, last) is None);
                assert(extend_queue(self@.songs, self@.queue, (lack - k) as nat) == (self@.queue, false));
                return None;
            }
            let next = share(&self.songs[position + 1]);
            assert(next_in_list(self@.songs, last) == Some(next));
            self.queue.push(next);
            k = k + 1;
        }
        proof {
            assert(extend_queue(self@.songs, self@.queue, 0) == (self@.queue, true));
        }
        Some(())
    }

    /// Adds a song to the library: ignored where a song of the same key is
    /// listed; otherwise inserted in order, and appended to the first album
    /// whose name is the song's album and which shares an album artist with
    /// it (any album of that name, where the song names no album artist).
    pub fn insert_song(&mut self, song: Arc<Song>)
        requires
            well_formed(old(self)@),
        ensures
            final(self)@ == insert_song_spec(old(self)@, song),
            well_formed(final(self)@),
    {
        let location: usize = match search_songs(&self.songs, &song) {
            Ok(_) => {
                return;
            },
            Err(l) => l,
        };
        proof {
            lemma_insert_sorted(self.songs@, song, location as int);
        }
        let ghost k0 = first_accepting(self@.albums, song_of(song), 0);
        let mut k: usize = 0;
        while k < self.albums.len()
            invariant
                k <= self.albums@.len(),
                self@ == old(self)@,
                well_formed(self@),
                location == lower_bound(self@.songs, song_of(song)),
                is_boundary(self@.songs, song_of(song), location as int),
                location == self@.songs.len() || song_order(song_of(self@.songs[location as int]), song_of(song)) > 0,
                sorted(self@.songs.insert(location as int, song)),
                k0 == first_accepting(self@.albums, song_of(song), 0),
                k0 == first_accepting(self@.albums, song_of(song), k as int),
            decreases self.albums@.len() - k,
        {
            let takes = self.albums[k].name == song.album && (song.album_artists.len() == 0
                || identical(&song.album_artists, &names_of(&self.albums[k].artists)));
            if takes {
                assert(self@.albums[k as int] == self.albums@[k as int]@);
                assert(accepts_song(self@.albums[k as int], song_of(song)));
                let extra = share(&song);
                let ghost old_albums = self.albums@;
                self.albums[k].songs.push(extra);
                proof {
                    assert(album_views(self.albums@) =~= album_views(old_albums).update(
                        k as int,
                        with_song(album_views(old_albums)[k as int], song),
                    ));
                }
                self.songs.insert(location, song);
                return;
            }
            assert(!accepts_song(self@.albums[k as int], song_of(song)));
            k = k + 1;
        }
        self.songs.insert(location, song);
    }

    /// The signal that plays the song at a queue position.
    fn play_song(&self, pos: usize) -> (r: MediaSignal)
        requires
            pos < self.queue@.len(),
        ensures
            r == MediaSignal::PlaySong(self.queue@[pos as int]),
    {
        MediaSignal::PlaySong(share(&self.queue[pos]))
    }

    /// Answers an event of the audio backend; the signal, if any, is for the
    /// backend.
    pub fn handle_event(&mut self, event: MediaEvent) -> (r: Option<MediaSignal>)
        requires
            well_formed(old(self)@),
            accepts_event(old(self)@, event),
        ensures
            (final(self)@, r) == handle_event_spec(old(self)@, event),
            well_formed(final(self)@),
    {
        match event {
            MediaEvent::Connect => {
                self.connected = true;
                None
            },
            MediaEvent::Play => {
                self.playing = true;
                None
            },
            MediaEvent::Pause => {
                self.playing = false;
                None
            },
            MediaEvent::Queued => None,
            MediaEvent::EndedSong | MediaEvent::FailedQueue => {
                let queue_len: usize = self.queue.len();
                assert(self.queue_position + 1 < queue_len);
                self.queue_position = self.queue_position + 1;
                let signal = self.play_song(self.queue_position);
                let _ = self.fill_queue();
                Some(signal)
            },
        }
    }

    /// Answers a playback control of the window.
    pub fn handle_control(&mut self, control: MediaControl) -> (r: Option<MediaSignal>)
        requires
            well_formed(old(self)@),
            accepts_control(old(self)@, control),
        ensures
            (final(self)@, r) == handle_control_spec(old(self)@, control),
            well_formed(final(self)@),
    {
        match control {
            MediaControl::Next => {
                let queue_len: usize = self.queue.len();
                assert(self.queue_position + 1 < queue_len);
                self.queue_position = self.queue_position + 1;
                Some(self.play_song(self.queue_position))
            },
            MediaControl::Prev => {
                self.queue_position = self.queue_position - 1;
                let signal = self.play_song(self.queue_position);
                let _ = self.fill_queue();
                Some(signal)
            },
            MediaControl::Resume => Some(MediaSignal::Play),
            MediaControl::Pause => Some(MediaSignal::Pause),
            MediaControl::PlayPause => Some(if self.playing {
                MediaSignal::Pause
            } else {
                MediaSignal::Play
            }),
        }
    }

    /// Adds the songs of imported albums to the library, then the albums.
    fn import_albums(&mut self, mut albums: Vec<Album>)
        requires
            well_formed(old(self)@),
        ensures
            final(self)@ == ({
                let w = insert_all_spec(old(self)@, album_songs(albums@));
                AppView { albums: w.albums + album_views(albums@), ..w }
            }),
            well_formed(final(self)@),
    {
        let ghost start = self@;
        let ghost all = albums@;
        let mut i: usize = 0;
        proof {
            assert(albums@.take(0) =~= Seq::<Album>::empty());
        }
        while i < albums.len()
            invariant
                i <= albums@.len(),
                albums@ == all,
                start == old(self)@,
                well_formed(self@),
                self@ == insert_all_spec(start, album_songs(all.take(i as int))),
            decreases albums@.len() - i,
        {
            let ghost before = album_songs(all.take(i as int));
            let mut j: usize = 0;
            proof {
                assert(before + albums@[i as int].songs@.take(0) =~= before);
            }
            while j < albums[i].songs.len()
                invariant
                    i < albums@.len(),
                    albums@ == all,
                    j <= albums@[i as int].songs@.len(),
                    well_formed(self@),
                    before == album_songs(all.take(i as int)),
                    self@ == insert_all_spec(start, before + albums@[i as int].songs@.take(j as int)),
                decreases albums@[i as int].songs@.len() - j,
            {
                let song = share(&albums[i].songs[j]);
                self.insert_song(song);
                proof {
                    let s = before + albums@[i as int].songs@.take(j + 1);
                    assert(s.drop_last() =~= before + albums@[i as int].songs@.take(j as int));
                    assert(s.last() == song);
                }
                j = j + 1;
            }
            proof {
                assert(albums@[i as int].songs@.take(j as int) =~= albums@[i as int].songs@);
                assert(all.take(i + 1).drop_last() =~= all.take(i as int));
            }
            i = i + 1;
        }
        proof {
            assert(all.take(i as int) =~= all);
        }
        let ghost mid = self.albums@;
        self.albums.append(&mut albums);
        proof {
            assert(album_views(self.albums@) =~= album_views(mid) + album_views(all));
        }
    }

    /// Answers a message of the window; the signal, if any, is for the audio
    /// backend.
    pub fn update(&mut self, message: Message) -> (r: Option<MediaSignal>)
        requires
            well_formed(old(self)@),
            accepts_message(old(self)@, message),
        ensures
            (final(self)@, r) == update_spec(old(self)@, message),
            well_formed(final(self)@),
    {
        match message {
            Message::Media(event) => self.handle_event(event),
            Message::Control(control) => self.handle_control(control),
            Message::SetPosition(position) => Some(MediaSignal::NewPosition(position)),
            Message::Queue(song) => {
                self.queue.push(song);
                None
            },
            Message::Play(song) => {
                self.queue.clear();
                let signal = MediaSignal::PlaySong(share(&song));
                self.queue.push(song);
                self.queue_position = 0;
                let _ = self.fill_queue();
                Some(signal)
            },
            Message::SetPage(page) => {
                self.page = page;
                None
            },
            Message::DoneImport(albums) => {
                self.import_albums(albums);
                None
            },
        }
    }

    /// Length in milliseconds of the song at the queue position, or zero
    /// where the position is past the queue.
    pub fn current_length_ms(&self) -> (ms: u64)
        ensures
            ms == if self.queue_position < self.queue@.len() {
                self.queue@[self.queue_position as int].length_ms
            } else {
                0
            },
    {
        if self.queue.len() <= self.queue_position {
            0
        } else {
            self.queue[self.queue_position].length_ms
        }
    }
}


/// Adding a song puts a song of its key into the list, at the place where a
/// search for it looks.
pub proof fn lemma_insert_song_then_found(v: AppView, s: Arc<Song>)
    requires
        well_formed(v),
    ensures
        ({
            let w = insert_song_spec(v, s);
            let i: int = lower_bound(w.songs, song_of(s));
            0 <= i < w.songs.len() && song_order(song_of(w.songs[i]), song_of(s)) == 0
        }),
{
    lemma_boundary_exists(v.songs, song_of(s));
    let i: int = lower_bound(v.songs, song_of(s));
    lemma_song_order_antisym(song_of(s), song_of(s));
    if !(i < v.songs.len() && song_order(song_of(v.songs[i]), song_of(s)) == 0) {
        let t = v.songs.insert(i, s);
        assert forall|j: int| i <= j < t.len() implies song_order(song_of(#[trigger] t[j]), song_of(s)) >= 0 by {
            if j > i {
                assert(t[j] == v.songs[j - 1]);
            }
        }
        assert forall|j: int| 0 <= j < i implies song_order(song_of(#[trigger] t[j]), song_of(s)) < 0 by {
            assert(t[j] == v.songs[j]);
        }
        assert(is_boundary(t, song_of(s), i));
        lemma_lower_bound(t, song_of(s), i);
    }
}

/// Adding a song that was already added changes nothing.
pub proof fn lemma_insert_song_idempotent(v: AppView, s: Arc<Song>)
    requires
        well_formed(v),
    ensures
        insert_song_spec(insert_song_spec(v, s), s) == insert_song_spec(v, s),
{
    lemma_insert_song_then_found(v, s);
}

/// Topping up keeps what was queued, appends at most `n` songs, each the one
/// listed after the song before it, and all `n` when it reports success.
pub proof fn lemma_extend_queue(songs: Seq<Arc<Song>>, queue: Seq<Arc<Song>>, n: nat)
    ensures
        ({
            let (q, ok) = extend_queue(songs, queue, n);
            &&& queue.len() <= q.len() <= queue.len() + n
            &&& q.take(queue.len() as int) == queue
            &&& ok ==> q.len() == queue.len() + n
            &&& forall|k: int| queue.len() <= k < q.len() && k > 0 ==> next_in_list(songs, song_of(q[k - 1])) == Some(#[trigger] q[k])
        }),
    decreases n,
{
    if n > 0 && queue.len() > 0 {
        if let Some(x) = next_in_list(songs, song_of(queue.last())) {
            lemma_extend_queue(songs, queue.push(x), (n - 1) as nat);
            let (q, ok) = extend_queue(songs, queue.push(x), (n - 1) as nat);
            assert(q.take(queue.len() as int) =~= q.take(queue.len() + 1int).take(queue.len() as int));
            assert(queue.push(x).take(queue.len() as int) =~= queue);
            assert forall|k: int| queue.len() <= k < q.len() && k > 0 implies next_in_list(songs, song_of(q[k - 1])) == Some(#[trigger] q[k]) by {
                if k == queue.len() {
                    assert(q[k] == queue.push(x)[k]);
                    assert(q[k - 1] == queue.push(x)[k - 1]);
                }
            }
        }
    }
    if n == 0 || queue.len() == 0 {
        assert(queue.take(queue.len() as int) =~= queue);
    } else if next_in_list(songs, song_of(queue.last())) is None {
        assert(queue.take(queue.len() as int) =~= queue);
    }
}

/// A successful top-up leaves at least `FOLLOWING_SIZE` songs from the
/// position on, and the queue up to its old end is unchanged.
pub proof fn lemma_fill_queue_result(v: AppView)
    requires
        well_formed(v),
    ensures
        fill_spec(v).0.queue.len() >= v.queue.len(),
        fill_spec(v).0.queue.take(v.queue.len() as int) == v.queue,
        fill_spec(v).0.queue_position == v.queue_position,
        fill_spec(v).1 ==> fill_spec(v).0.queue.len() - v.queue_position >= FOLLOWING_SIZE,
{
    lemma_extend_queue(v.songs, v.queue, lacking(v.queue.len() as int, v.queue_position));
}

/// Going back after going forward returns to the same place in the queue and
/// plays the song that was there.
pub proof fn lemma_prev_undoes_next(v: AppView)
    requires
        well_formed(v),
        accepts_control(v, MediaControl::Next),
    ensures
        ({
            let w = handle_control_spec(v, MediaControl::Next).0;
            let (u, signal) = handle_control_spec(w, MediaControl::Prev);
            &&& accepts_control(w, MediaControl::Prev)
            &&& u.queue_position == v.queue_position
            &&& signal == Some(MediaSignal::PlaySong(v.queue[v.queue_position]))
            &&& u.queue.take(v.queue.len() as int) == v.queue
        }),
{
    let w = handle_control_spec(v, MediaControl::Next).0;
    let back = AppView { queue_position: w.queue_position - 1, ..w };
    lemma_fill_queue_result(back);
}

/// Topping up stops short only where the list has no song after the
/// queue's last.
pub proof fn lemma_extend_queue_stops(songs: Seq<Arc<Song>>, queue: Seq<Arc<Song>>, n: nat)
    requires
        queue.len() > 0,
    ensures
        ({
            let (q, ok) = extend_queue(songs, queue, n);
            q.len() < queue.len() + n ==> next_in_list(songs, song_of(q.last())) is None
        }),
    decreases n,
{
    if n > 0 {
        if let Some(x) = next_in_list(songs, song_of(queue.last())) {
            lemma_extend_queue_stops(songs, queue.push(x), (n - 1) as nat);
        }
    }
}

/// Playing a song starts a fresh queue: the song, then the songs listed
/// after it, each the one listed right after the song before it, up to
/// `FOLLOWING_SIZE` songs in all, and fewer only where the list ends;
/// nothing of the earlier queue is kept. The position is the song's, the
/// song goes to the backend, and the list and albums are unchanged.
pub proof fn lemma_play_heads_queue(v: AppView, s: Arc<Song>)
    requires
        well_formed(v),
    ensures
        ({
            let (u, signal) = update_spec(v, Message::Play(s));
            &&& 1 <= u.queue.len() <= FOLLOWING_SIZE
            &&& u.queue[0] == s
            &&& forall|k: int| 1 <= k < u.queue.len() ==> next_in_list(v.songs, song_of(u.queue[k - 1])) == Some(#[trigger] u.queue[k])
            &&& u.queue.len() < FOLLOWING_SIZE ==> next_in_list(v.songs, song_of(u.queue.last())) is None
            &&& u.queue_position == 0
            &&& signal == Some(MediaSignal::PlaySong(s))
            &&& u.songs == v.songs
            &&& u.albums == v.albums
        }),
{
    let w = AppView { queue: seq![s], queue_position: 0, ..v };
    lemma_fill_queue_result(w);
    lemma_extend_queue(w.songs, w.queue, lacking(1, 0));
    lemma_extend_queue_stops(w.songs, w.queue, lacking(1, 0));
    let u = fill_spec(w).0;
    assert(u.queue.take(1)[0] == u.queue[0]);
    assert(u.queue.take(1) == seq![s]);
}

/// How the player answers the backend: an ended or failed song moves on to
/// the next song of the queue and plays it, keeping the queue up to its old
/// end; a queued report changes nothing; a connection, play or pause report
/// sets its flag and leaves the queue alone.
pub proof fn lemma_event_answers(v: AppView, e: MediaEvent)
    requires
        well_formed(v),
        accepts_event(v, e),
    ensures
        ({
            let (u, signal) = update_spec(v, Message::Media(e));
            &&& (e is EndedSong || e is FailedQueue) ==> {
                &&& u.queue_position == v.queue_position + 1
                &&& signal == Some(MediaSignal::PlaySong(v.queue[v.queue_position + 1]))
                &&& u.queue.len() >= v.queue.len()
                &&& u.queue.take(v.queue.len() as int) == v.queue
                &&& u.songs == v.songs
                &&& u.playing == v.playing
            }
            &&& e is Queued ==> u == v && signal is None
            &&& e is Connect ==> u.connected && u.queue == v.queue && u.queue_position == v.queue_position && signal is None
            &&& e is Play ==> u.playing && u.queue == v.queue && u.queue_position == v.queue_position && signal is None
            &&& e is Pause ==> !u.playing && u.queue == v.queue && u.queue_position == v.queue_position && signal is None
        }),
{
    if e is EndedSong || e is FailedQueue {
        lemma_fill_queue_result(AppView { queue_position: v.queue_position + 1, ..v });
    }
}

/// How the player answers the window's controls: next and previous move one
/// place in the queue and play the song there, keeping the queue; resume,
/// pause and play-pause only signal the backend, play-pause by whether the
/// player plays.
pub proof fn lemma_control_answers(v: AppView, c: MediaControl)
    requires
        well_formed(v),
        accepts_control(v, c),
    ensures
        ({
            let (u, signal) = update_spec(v, Message::Control(c));
            &&& c is Next ==> u.queue_position == v.queue_position + 1 && u.queue == v.queue
                && signal == Some(MediaSignal::PlaySong(v.queue[v.queue_position + 1]))
            &&& c is Prev ==> u.queue_position == v.queue_position - 1
                && u.queue.take(v.queue.len() as int) == v.queue
                && signal == Some(MediaSignal::PlaySong(v.queue[v.queue_position - 1]))
            &&& c is Resume ==> u == v && signal == Some(MediaSignal::Play)
            &&& c is Pause ==> u == v && signal == Some(MediaSignal::Pause)
            &&& c is PlayPause ==> u == v && signal == Some(if v.playing { MediaSignal::Pause } else { MediaSignal::Play })
        }),
{
    if c is Prev {
        lemma_fill_queue_result(AppView { queue_position: v.queue_position - 1, ..v });
    }
}

/// Queueing a song puts it at the end of the queue and changes nothing else.
pub proof fn lemma_queue_appends(v: AppView, s: Arc<Song>)
    ensures
        ({
            let (u, signal) = update_spec(v, Message::Queue(s));
            &&& u.queue == v.queue.push(s)
            &&& u.queue_position == v.queue_position
            &&& u.songs == v.songs && u.albums == v.albums && u.playing == v.playing
            &&& signal is None
        }),
{
}

} // verus!
