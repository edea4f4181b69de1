//! The order in which a song is written to the store: its row, then for each
//! artist and then each genre a lookup of the name, an insert where it is
//! missing, and the link; the first failure of the store ends the commit.

use crate::model::{Artist, Genre};
use vstd::prelude::*;

verus! {

/// What committing a stored-or-not name does next.
#[derive(Clone, Copy, Debug)]
pub enum CommitAction {
    /// The name is known to be stored: nothing to write.
    Done,
    /// Insert the name and settle the answer.
    Insert,
}

impl Artist {
    /// What committing this artist does: nothing once it is known to be
    /// stored, otherwise an insert of its name.
    pub fn commit_action(&self) -> (a: CommitAction)
        ensures
            a is Done <==> self.committed,
    {
        if self.committed { CommitAction::Done } else { CommitAction::Insert }
    }
}

impl Genre {
    /// What committing this genre does: nothing once it is known to be
    /// stored, otherwise an insert of its name.
    pub fn commit_action(&self) -> (a: CommitAction)
        ensures
            a is Done <==> self.committed,
    {
        if self.committed { CommitAction::Done } else { CommitAction::Insert }
    }
}

/// Where writing a song to the store stands.
#[derive(Clone, Copy, Debug)]
pub enum CommitStep {
    /// Insert the song's row.
    InsertSong,
    /// Look up the name of the artist at this position.
    FindArtist(usize),
    /// Insert the name of the artist at this position.
    AddArtist(usize),
    /// Link the song to the artist at this position, stored under this
    /// identifier.
    LinkArtist(usize, i32),
    /// Look up the name of the genre at this position.
    FindGenre(usize),
    /// Insert the name of the genre at this position.
    AddGenre(usize),
    /// Link the song to the genre at this position, stored under this
    /// identifier.
    LinkGenre(usize, i32),
    /// Every row and link is written.
    Done,
}

/// What the store answered to a step.
pub enum StoreReply<E> {
    /// The identifier of the row that was inserted or found.
    Id(i32),
    /// The lookup found no row.
    NotFound,
    /// The link was written.
    Written,
    /// The store failed.
    Failed(E),
}

/// The answers a step can get: an identifier from an insert or a lookup,
/// "not found" from a lookup, "written" from a link, and a failure from any.
pub open spec fn fits<E>(step: CommitStep, reply: StoreReply<E>) -> bool {
    match step {
        CommitStep::InsertSong | CommitStep::AddArtist(_) | CommitStep::AddGenre(_) => reply is Id || reply is Failed,
        CommitStep::FindArtist(_) | CommitStep::FindGenre(_) => reply is Id || reply is NotFound || reply is Failed,
        CommitStep::LinkArtist(_, _) | CommitStep::LinkGenre(_, _) => reply is Written || reply is Failed,
        CommitStep::Done => false,
    }
}

/// The step that deals with the genre at position `i`, or the end.
pub open spec fn genre_from(i: int, genres: int) -> CommitStep {
    if i < genres { CommitStep::FindGenre(i as usize) } else { CommitStep::Done }
}

/// The step that deals with the artist at position `i`, or the genres.
pub open spec fn artist_from(i: int, artists: int, genres: int) -> CommitStep {
    if i < artists { CommitStep::FindArtist(i as usize) } else { genre_from(0, genres) }
}

/// The next step after an answer, or the store's error.
pub open spec fn next_spec<E>(step: CommitStep, reply: StoreReply<E>, artists: int, genres: int) -> Result<CommitStep, E> {
    match reply {
        StoreReply::Failed(e) => Err(e),
        _ => Ok(match step {
            CommitStep::InsertSong => artist_from(0, artists, genres),
            CommitStep::FindArtist(i) => match reply {
                StoreReply::Id(id) => CommitStep::LinkArtist(i, id),
                _ => CommitStep::AddArtist(i),
            },
            CommitStep::AddArtist(i) => CommitStep::LinkArtist(i, reply->Id_0),
            CommitStep::LinkArtist(i, _) => artist_from(i + 1, artists, genres),
            CommitStep::FindGenre(i) => match reply {
                StoreReply::Id(id) => CommitStep::LinkGenre(i, id),
                _ => CommitStep::AddGenre(i),
            },
            CommitStep::AddGenre(i) => CommitStep::LinkGenre(i, reply->Id_0),
            CommitStep::LinkGenre(i, _) => genre_from(i + 1, genres),
            CommitStep::Done => CommitStep::Done,
        }),
    }
}

/// The step after the store's answer: a found name is linked, a missing one
/// inserted, an inserted one linked; after a link comes the next name, the
/// genres after the artists; a failure ends the commit with the error.
pub fn commit_next<E>(step: CommitStep, reply: StoreReply<E>, artists: usize, genres: usize) -> (r: Result<CommitStep, E>)
    requires
        fits(step, reply),
    ensures
        r == next_spec(step, reply, artists as int, genres as int),
{
    let id = match reply {
        StoreReply::Failed(e) => {
            return Err(e);
        },
        StoreReply::Id(id) => Some(id),
        _ => None,
    };
    let next = match step {
        CommitStep::InsertSong => if 0 < artists {
            CommitStep::FindArtist(0)
        } else if 0 < genres {
            CommitStep::FindGenre(0)
        } else {
            CommitStep::Done
        },
        CommitStep::FindArtist(i) => match id {
            Some(id) => CommitStep::LinkArtist(i, id),
            None => CommitStep::AddArtist(i),
        },
        CommitStep::AddArtist(i) => CommitStep::LinkArtist(i, id.unwrap()),
        CommitStep::LinkArtist(i, _) => if i < artists && artists - i > 1 {
            CommitStep::FindArtist(i + 1)
        } else if 0 < genres {
            CommitStep::FindGenre(0)
        } else {
            CommitStep::Done
        },
        CommitStep::FindGenre(i) => match id {
            Some(id) => CommitStep::LinkGenre(i, id),
            None => CommitStep::AddGenre(i),
        },
        CommitStep::AddGenre(i) => CommitStep::LinkGenre(i, id.unwrap()),
        CommitStep::LinkGenre(i, _) => if i < genres && genres - i > 1 {
            CommitStep::FindGenre(i + 1)
        } else {
            CommitStep::Done
        },
        CommitStep::Done => CommitStep::Done,
    };
    Ok(next)
}

/// How far a commit has come: the song's row, then three steps per artist
/// and three per genre.
pub open spec fn progress(step: CommitStep, artists: int, genres: int) -> int {
    match step {
        CommitStep::InsertSong => 0,
        CommitStep::FindArtist(i) => 1 + 3 * i,
        CommitStep::AddArtist(i) => 2 + 3 * i,
        CommitStep::LinkArtist(i, _) => 3 + 3 * i,
        CommitStep::FindGenre(i) => 1 + 3 * artists + 3 * i,
        CommitStep::AddGenre(i) => 2 + 3 * artists + 3 * i,
        CommitStep::LinkGenre(i, _) => 3 + 3 * artists + 3 * i,
        CommitStep::Done => 1 + 3 * artists + 3 * genres,
    }
}

/// The steps that a commit can be at: positions within the artists and
/// genres.
pub open spec fn valid_step(step: CommitStep, artists: int, genres: int) -> bool {
    match step {
        CommitStep::FindArtist(i) | CommitStep::AddArtist(i) | CommitStep::LinkArtist(i, _) => i < artists,
        CommitStep::FindGenre(i) | CommitStep::AddGenre(i) | CommitStep::LinkGenre(i, _) => i < genres,
        _ => true,
    }
}

/// Every answer that is not a failure moves the commit forward to a valid
/// step, and no commit takes more than one step for the song's row and three
/// for each artist and each genre.
pub proof fn lemma_commit_advances<E>(step: CommitStep, reply: StoreReply<E>, artists: usize, genres: usize)
    requires
        fits(step, reply),
        valid_step(step, artists as int, genres as int),
        !(reply is Failed),
    ensures
        next_spec(step, reply, artists as int, genres as int) matches Ok(next)
            && valid_step(next, artists as int, genres as int)
            && progress(step, artists as int, genres as int) < progress(next, artists as int, genres as int)
            <= 1 + 3 * artists + 3 * genres,
{
    let a = artists as int;
    let g = genres as int;
    match step {
        CommitStep::InsertSong => {
            assert(artist_from(0, a, g) == if 0 < a { CommitStep::FindArtist(0) } else { genre_from(0, g) });
        },
        CommitStep::LinkArtist(i, _) => {
            assert((i + 1) as usize as int == i + 1);
        },
        CommitStep::LinkGenre(i, _) => {
            assert((i + 1) as usize as int == i + 1);
        },
        _ => {},
    }
}

/// How a commit answers the store: a lookup that finds a name links the
/// song to the row it found, a lookup that finds nothing inserts the name,
/// an inserted name is linked to its new row; after the song's row come the
/// artists from the first, after each artist's link the next artist or else
/// the first genre, after each genre's link the next genre or else the end.
pub proof fn lemma_commit_answers<E>(i: usize, id: i32, artists: usize, genres: usize)
    ensures
        next_spec(CommitStep::FindArtist(i), StoreReply::<E>::Id(id), artists as int, genres as int)
            == Ok::<CommitStep, E>(CommitStep::LinkArtist(i, id)),
        next_spec(CommitStep::FindArtist(i), StoreReply::<E>::NotFound, artists as int, genres as int)
            == Ok::<CommitStep, E>(CommitStep::AddArtist(i)),
        next_spec(CommitStep::AddArtist(i), StoreReply::<E>::Id(id), artists as int, genres as int)
            == Ok::<CommitStep, E>(CommitStep::LinkArtist(i, id)),
        next_spec(CommitStep::FindGenre(i), StoreReply::<E>::Id(id), artists as int, genres as int)
            == Ok::<CommitStep, E>(CommitStep::LinkGenre(i, id)),
        next_spec(CommitStep::FindGenre(i), StoreReply::<E>::NotFound, artists as int, genres as int)
            == Ok::<CommitStep, E>(CommitStep::AddGenre(i)),
        next_spec(CommitStep::AddGenre(i), StoreReply::<E>::Id(id), artists as int, genres as int)
            == Ok::<CommitStep, E>(CommitStep::LinkGenre(i, id)),
        next_spec(CommitStep::InsertSong, StoreReply::<E>::Id(id), artists as int, genres as int)
            == Ok::<CommitStep, E>(
                if artists > 0 { CommitStep::FindArtist(0) }
                else if genres > 0 { CommitStep::FindGenre(0) }
                else { CommitStep::Done },
            ),
        i + 1 < artists ==> next_spec(CommitStep::LinkArtist(i, id), StoreReply::<E>::Written, artists as int, genres as int)
            == Ok::<CommitStep, E>(CommitStep::FindArtist((i + 1) as usize)),
        i + 1 >= artists ==> next_spec(CommitStep::LinkArtist(i, id), StoreReply::<E>::Written, artists as int, genres as int)
            == Ok::<CommitStep, E>(if genres > 0 { CommitStep::FindGenre(0) } else { CommitStep::Done }),
        i + 1 < genres ==> next_spec(CommitStep::LinkGenre(i, id), StoreReply::<E>::Written, artists as int, genres as int)
            == Ok::<CommitStep, E>(CommitStep::FindGenre((i + 1) as usize)),
        i + 1 >= genres ==> next_spec(CommitStep::LinkGenre(i, id), StoreReply::<E>::Written, artists as int, genres as int)
            == Ok::<CommitStep, E>(CommitStep::Done),
{
}

/// A failure of the store ends the commit with the store's error, whatever
/// step it answered.
pub proof fn lemma_commit_fails<E>(step: CommitStep, e: E, artists: usize, genres: usize)
    ensures
        next_spec(step, StoreReply::Failed(e), artists as int, genres as int) == Err::<CommitStep, E>(e),
{
}

} // verus!
