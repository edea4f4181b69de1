use rhymonic::model::{Artist, Genre};
use rhymonic::store::{commit_next, CommitAction, CommitStep, StoreReply};

fn next(step: CommitStep, reply: StoreReply<&'static str>, artists: usize, genres: usize) -> Result<CommitStep, &'static str> {
    commit_next(step, reply, artists, genres)
}

fn is(r: Result<CommitStep, &'static str>, want: CommitStep) -> bool {
    match (r, want) {
        (Ok(CommitStep::InsertSong), CommitStep::InsertSong) | (Ok(CommitStep::Done), CommitStep::Done) => true,
        (Ok(CommitStep::FindArtist(a)), CommitStep::FindArtist(b))
        | (Ok(CommitStep::AddArtist(a)), CommitStep::AddArtist(b))
        | (Ok(CommitStep::FindGenre(a)), CommitStep::FindGenre(b))
        | (Ok(CommitStep::AddGenre(a)), CommitStep::AddGenre(b)) => a == b,
        (Ok(CommitStep::LinkArtist(a, x)), CommitStep::LinkArtist(b, y))
        | (Ok(CommitStep::LinkGenre(a, x)), CommitStep::LinkGenre(b, y)) => a == b && x == y,
        _ => false,
    }
}

#[test]
fn stored_names_need_no_insert() {
    let mut a = Artist::new("A".to_string());
    assert!(matches!(a.commit_action(), CommitAction::Insert));
    a.committed = true;
    assert!(matches!(a.commit_action(), CommitAction::Done));
    let mut g = Genre::new("G".to_string());
    assert!(matches!(g.commit_action(), CommitAction::Insert));
    g.committed = true;
    assert!(matches!(g.commit_action(), CommitAction::Done));
}

#[test]
fn artists_and_genres_compare_by_fields() {
    assert!(Artist::new("A".to_string()) == Artist::new("A".to_string()));
    assert!(Artist::new("A".to_string()) != Artist::new("B".to_string()));
    assert!(Genre::new("G".to_string()) == Genre::new("G".to_string()));
    assert!(Genre::new("G".to_string()) != Genre::new("H".to_string()));
}

#[test]
fn a_full_commit_walks_artists_then_genres() {
    let s = next(CommitStep::InsertSong, StoreReply::Id(10), 2, 1);
    assert!(is(s, CommitStep::FindArtist(0)));
    assert!(is(next(CommitStep::FindArtist(0), StoreReply::Id(4), 2, 1), CommitStep::LinkArtist(0, 4)));
    assert!(is(next(CommitStep::LinkArtist(0, 4), StoreReply::Written, 2, 1), CommitStep::FindArtist(1)));
    assert!(is(next(CommitStep::FindArtist(1), StoreReply::NotFound, 2, 1), CommitStep::AddArtist(1)));
    assert!(is(next(CommitStep::AddArtist(1), StoreReply::Id(7), 2, 1), CommitStep::LinkArtist(1, 7)));
    assert!(is(next(CommitStep::LinkArtist(1, 7), StoreReply::Written, 2, 1), CommitStep::FindGenre(0)));
    assert!(is(next(CommitStep::FindGenre(0), StoreReply::NotFound, 2, 1), CommitStep::AddGenre(0)));
    assert!(is(next(CommitStep::AddGenre(0), StoreReply::Id(3), 2, 1), CommitStep::LinkGenre(0, 3)));
    assert!(is(next(CommitStep::LinkGenre(0, 3), StoreReply::Written, 2, 1), CommitStep::Done));
}

#[test]
fn a_song_without_names_is_done_after_its_row() {
    assert!(is(next(CommitStep::InsertSong, StoreReply::Id(1), 0, 0), CommitStep::Done));
    assert!(is(next(CommitStep::InsertSong, StoreReply::Id(1), 0, 2), CommitStep::FindGenre(0)));
}

#[test]
fn a_failure_ends_the_commit_with_its_error() {
    assert!(matches!(next(CommitStep::InsertSong, StoreReply::Failed("row"), 1, 1), Err("row")));
    assert!(matches!(next(CommitStep::FindGenre(0), StoreReply::Failed("find"), 1, 1), Err("find")));
    assert!(matches!(next(CommitStep::LinkArtist(0, 2), StoreReply::Failed("link"), 1, 1), Err("link")));
}
