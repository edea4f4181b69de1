//! The pages of the window and the decisions the views make from plain
//! values.

use crate::library::{artist_names, names_of, texts};
use crate::model::{Artist, Song};
use crate::text::{
    decimal, duration_text, format_duration, i32_to_string, int_text, join_strings, join_texts,
};
use vstd::prelude::*;
use vstd::string::*;

verus! {

/// The page that the main area of the window shows.
#[derive(PartialEq, Eq, Structural, Clone, Copy, Debug)]
pub enum Page {
    Songs,
    Queue,
    Albums,
    /// One album, by its position in the library's album list.
    Album(usize),
}


/// The artists' names joined with ", ".
pub fn artists_text(artists: &Vec<Artist>) -> (s: String)
    ensures
        s@ == join_texts(artist_names(artists@), seq![',', ' ']),
{
    let names = names_of(artists);
    proof {
        reveal_strlit(", ");
        assert(", "@ =~= seq![',', ' ']);
        assert(names@.map_values(|p: String| p@) =~= texts(names@));
    }
    join_strings(&names, ", ")
}

/// The texts of the five columns of a song's row: track, title, album,
/// artists and playing time.
pub fn song_row_texts(song: &Song) -> (cells: Vec<String>)
    ensures
        cells@.len() == 5,
        cells@[0]@ == int_text(song.track_number as int),
        cells@[1]@ == song.title@,
        cells@[2]@ == song.album@,
        cells@[3]@ == join_texts(artist_names(song.artists@), seq![',', ' ']),
        cells@[4]@ == duration_text((song.length_ms / 1000) as nat),
{
    let mut cells: Vec<String> = Vec::new();
    cells.push(i32_to_string(song.track_number));
    cells.push(song.title.clone());
    cells.push(song.album.clone());
    cells.push(artists_text(&song.artists));
    cells.push(format_duration(song.length_ms));
    cells
}

/// Whether the sidebar marks `page` as the current one: the album list is
/// also marked while one album is shown.
pub fn sidebar_highlighted(page: Page, current: Page) -> (b: bool)
    ensures
        b == ((current is Album && page == Page::Albums) || page == current),
{
    match current {
        Page::Album(_) => match page {
            Page::Albums => true,
            _ => page == current,
        },
        _ => page == current,
    }
}

/// The name of a page, as its derived `Debug` writes it.
pub fn page_label(page: Page) -> (s: String)
    ensures
        s@ == match page {
            Page::Songs => "Songs"@,
            Page::Queue => "Queue"@,
            Page::Albums => "Albums"@,
            Page::Album(i) => "Album("@ + decimal(i as nat) + ")"@,
        },
{
    match page {
        Page::Songs => String::from_str("Songs"),
        Page::Queue => String::from_str("Queue"),
        Page::Albums => String::from_str("Albums"),
        Page::Album(i) => {
            let mut s = String::from_str("Album(");
            s.append(crate::text::u64_to_string(i as u64).as_str());
            s.append(")");
            s
        },
    }
}

/// Which rows of a song list of `len` rows are built when the view starts at
/// row `start` and has room for `visible` rows: the rows from `start` up to
/// `end`, and the number of rows below them that only take up space.
pub fn visible_window(start: usize, visible: usize, len: usize) -> (r: (usize, usize))
    requires
        start <= len,
    ensures
        r.0 == if start + visible < len { start + visible } else { len as int },
        r.1 == len - r.0,
{
    let end: usize = if visible < len - start { start + visible } else { len };
    (end, len - end)
}

} // verus!
