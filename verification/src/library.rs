//! The sorted song list of the library: searching it, inserting into it,
//! and building it from albums.

use crate::model::{share, Album, Artist, Song};
use crate::order::{compare_songs, lemma_song_order_antisym, lemma_song_order_trans, song_of, song_order, sorted};
use std::sync::Arc;
use vstd::prelude::*;

verus! {

/// `i` splits `s` into the songs before `x` and the songs not before it.
pub open spec fn is_boundary(s: Seq<Arc<Song>>, x: Song, i: int) -> bool {
    &&& 0 <= i <= s.len()
    &&& forall|j: int| 0 <= j < i ==> song_order(*#[trigger] s[j], x) < 0
    &&& forall|j: int| i <= j < s.len() ==> song_order(*#[trigger] s[j], x) >= 0
}

/// The position at which `x` belongs in the sorted list `s`: the number of
/// songs that sort before it.
pub open spec fn lower_bound(s: Seq<Arc<Song>>, x: Song) -> int {
    choose|i: int| is_boundary(s, x, i)
}

/// A sorted list has exactly one boundary for every song.
pub proof fn lemma_boundary_unique(s: Seq<Arc<Song>>, x: Song, i: int, k: int)
    requires
        is_boundary(s, x, i),
        is_boundary(s, x, k),
    ensures
        i == k,
{
    if i < k {
        assert(song_order(*s[i], x) < 0);
    } else if k < i {
        assert(song_order(*s[k], x) < 0);
    }
}

pub proof fn lemma_lower_bound(s: Seq<Arc<Song>>, x: Song, i: int)
    requires
        is_boundary(s, x, i),
    ensures
        lower_bound(s, x) == i,
        is_boundary(s, x, lower_bound(s, x)),
{
    lemma_boundary_unique(s, x, i, lower_bound(s, x));
}

/// Every song has a boundary in a sorted list.
pub proof fn lemma_boundary_exists(s: Seq<Arc<Song>>, x: Song)
    requires
        sorted(s),
    ensures
        is_boundary(s, x, lower_bound(s, x)),
    decreases s.len(),
{
    if s.len() == 0 {
        lemma_lower_bound(s, x, 0);
    } else {
        let front = s.drop_last();
        assert(sorted(front)) by {
            assert forall|i: int, j: int| 0 <= i < j < front.len() implies song_order(*front[i], *front[j]) <= 0 by {
                assert(front[i] == s[i] && front[j] == s[j]);
            }
        }
        lemma_boundary_exists(front, x);
        let k: int = lower_bound(front, x);
        let last: int = s.len() - 1;
        if k < last {
            assert forall|j: int| k <= j < s.len() implies song_order(*#[trigger] s[j], x) >= 0 by {
                if j == last {
                    assert(song_order(*front[k], x) >= 0);
                    assert(song_order(*s[k], *s[j]) <= 0);
                    lemma_song_order_antisym(x, *s[k]);
                    lemma_song_order_antisym(x, *s[j]);
                    lemma_song_order_trans(x, *s[k], *s[j]);
                } else {
                    assert(s[j] == front[j]);
                }
            }
            assert forall|j: int| 0 <= j < k implies song_order(*#[trigger] s[j], x) < 0 by {
                assert(s[j] == front[j]);
            }
            lemma_lower_bound(s, x, k);
        } else if song_order(song_of(s[last]), x) < 0 {
            assert forall|j: int| 0 <= j < s.len() implies song_order(*#[trigger] s[j], x) < 0 by {
                if j < last {
                    assert(s[j] == front[j]);
                }
            }
            lemma_lower_bound(s, x, s.len() as int);
        } else {
            assert forall|j: int| 0 <= j < last implies song_order(*#[trigger] s[j], x) < 0 by {
                assert(s[j] == front[j]);
            }
            lemma_lower_bound(s, x, last);
        }
    }
}

/// Looks `song` up in the sorted list: `Ok` with the position of the first
/// song of the same key, or `Err` with the position where it would be
/// inserted.
pub fn search_songs(songs: &Vec<Arc<Song>>, song: &Song) -> (r: Result<usize, usize>)
    requires
        sorted(songs@),
    ensures
        is_boundary(songs@, *song, lower_bound(songs@, *song)),
        match r {
            Ok(i) => i == lower_bound(songs@, *song) && i < songs@.len()
                && song_order(*songs@[i as int], *song) == 0,
            Err(i) => i == lower_bound(songs@, *song) && (i == songs@.len()
                || song_order(*songs@[i as int], *song) > 0),
        },
{
    let mut lo: usize = 0;
    let mut hi: usize = songs.len();
    while lo < hi
        invariant
            sorted(songs@),
            0 <= lo <= hi <= songs@.len(),
            forall|j: int| 0 <= j < lo ==> song_order(*#[trigger] songs@[j], *song) < 0,
            forall|j: int| hi <= j < songs@.len() ==> song_order(*#[trigger] songs@[j], *song) >= 0,
        decreases hi - lo,
    {
        let mid: usize = lo + (hi - lo) / 2;
        let c: i8 = compare_songs(&songs[mid], song);
        if c < 0 {
            assert forall|j: int| 0 <= j < mid + 1 implies song_order(*#[trigger] songs@[j], *song) < 0 by {
                if j < mid {
                    lemma_song_order_trans(*songs@[j], *songs@[mid as int], *song);
                }
            }
            lo = mid + 1;
        } else {
            assert forall|j: int| mid <= j < songs@.len() implies song_order(*#[trigger] songs@[j], *song) >= 0 by {
                if j > mid {
                    lemma_song_order_antisym(*song, *songs@[mid as int]);
                    lemma_song_order_antisym(*song, *songs@[j]);
                    lemma_song_order_trans(*song, *songs@[mid as int], *songs@[j]);
                }
            }
            hi = mid;
        }
    }
    proof {
        lemma_lower_bound(songs@, *song, lo as int);
    }
    if lo < songs.len() && compare_songs(&songs[lo], song) == 0 {
        Ok(lo)
    } else {
        Err(lo)
    }
}

/// Inserting a song at its boundary keeps a list sorted.
pub proof fn lemma_insert_sorted(s: Seq<Arc<Song>>, x: Arc<Song>, i: int)
    requires
        sorted(s),
        is_boundary(s, *x, i),
    ensures
        sorted(s.insert(i, x)),
{
    let t = s.insert(i, x);
    assert forall|a: int, b: int| 0 <= a < b < t.len() implies song_order(*t[a], *t[b]) <= 0 by {
        lemma_song_order_antisym(*x, *t[b]);
        if a < i && b > i {
            lemma_song_order_antisym(*x, *s[b - 1]);
            lemma_song_order_trans(*s[a], *x, *s[b - 1]);
        } else if a < i && b == i {
        } else if a == i {
            lemma_song_order_antisym(*x, *s[b - 1]);
        } else if a > i {
            assert(t[a] == s[a - 1] && t[b] == s[b - 1]);
        } else {
            assert(t[a] == s[a] && t[b] == s[b]);
        }
    }
}

/// Puts `song` into the sorted list at its boundary, also where a song of the
/// same key is already there.
pub fn insert_sorted(songs: &mut Vec<Arc<Song>>, song: Arc<Song>)
    requires
        sorted(old(songs)@),
    ensures
        sorted(final(songs)@),
        is_boundary(old(songs)@, *song, lower_bound(old(songs)@, *song)),
        final(songs)@ == old(songs)@.insert(lower_bound(old(songs)@, *song), song),
{
    let pos: usize = match search_songs(songs, &song) {
        Ok(i) => i,
        Err(i) => i,
    };
    proof {
        lemma_insert_sorted(songs@, song, pos as int);
    }
    songs.insert(pos, song);
}


/// All songs of the albums, album after album.
pub open spec fn album_songs(albums: Seq<Album>) -> Seq<Arc<Song>>
    decreases albums.len(),
{
    if albums.len() == 0 {
        Seq::empty()
    } else {
        album_songs(albums.drop_last()) + albums.last().songs@
    }
}

/// Inserting into a sequence adds the item to its multiset.
pub proof fn lemma_insert_multiset<A>(s: Seq<A>, i: int, x: A)
    requires
        0 <= i <= s.len(),
    ensures
        s.insert(i, x).to_multiset() =~= s.to_multiset().insert(x),
{
    broadcast use vstd::seq_lib::group_to_multiset_ensures;
    broadcast use vstd::multiset::group_multiset_axioms;

    let t = s.insert(i, x);
    assert(t.remove(i) =~= s);
    assert(t[i] == x);
    assert(t.contains(x));
}

/// The songs of all albums in the library's order, duplicates kept.
pub fn sorted_songs(albums: &Vec<Album>) -> (songs: Vec<Arc<Song>>)
    ensures
        sorted(songs@),
        songs@.to_multiset() =~= album_songs(albums@).to_multiset(),
{
    let mut songs: Vec<Arc<Song>> = Vec::new();
    let ghost mut seen: Seq<Arc<Song>> = Seq::empty();
    let mut i: usize = 0;
    proof {
        assert(albums@.take(0) =~= Seq::<Album>::empty());
    }
    while i < albums.len()
        invariant
            i <= albums@.len(),
            sorted(songs@),
            seen == album_songs(albums@.take(i as int)),
            songs@.to_multiset() =~= seen.to_multiset(),
        decreases albums@.len() - i,
    {
        let album = &albums[i];
        let ghost before = seen;
        let mut j: usize = 0;
        proof {
            assert(album.songs@.take(0) =~= Seq::<Arc<Song>>::empty());
            assert(seen + album.songs@.take(0) =~= seen);
        }
        while j < album.songs.len()
            invariant
                j <= album.songs@.len(),
                sorted(songs@),
                seen == before + album.songs@.take(j as int),
                songs@.to_multiset() =~= seen.to_multiset(),
            decreases album.songs@.len() - j,
        {
            let song = share(&album.songs[j]);
            let ghost pre = songs@;
            let ghost item = song;
            let ghost at = lower_bound(pre, song_of(song));
            insert_sorted(&mut songs, song);
            proof {
                broadcast use vstd::seq_lib::group_to_multiset_ensures;

                lemma_insert_multiset(pre, at, item);
                assert(album.songs@.take(j + 1) =~= album.songs@.take(j as int).push(item));
                assert(before + album.songs@.take(j + 1) =~= seen.push(item));
                seen = seen.push(item);
            }
            j = j + 1;
        }
        proof {
            assert(album.songs@.take(j as int) =~= album.songs@);
            assert(albums@.take(i + 1).drop_last() =~= albums@.take(i as int));
        }
        i = i + 1;
    }
    proof {
        assert(albums@.take(i as int) =~= albums@);
    }
    songs
}


/// The texts of a list of strings.
pub open spec fn texts(v: Seq<String>) -> Seq<Seq<char>> {
    v.map_values(|s: String| s@)
}

/// The names of a list of artists.
pub open spec fn artist_names(v: Seq<Artist>) -> Seq<Seq<char>> {
    v.map_values(|a: Artist| a.name@)
}

/// Some text occurs in both lists.
pub open spec fn share_item(a: Seq<Seq<char>>, b: Seq<Seq<char>>) -> bool {
    exists|i: int, j: int| 0 <= i < a.len() && 0 <= j < b.len() && #[trigger] a[i] == #[trigger] b[j]
}

/// Sharing a text does not depend on which list comes first.
pub proof fn lemma_share_item_symmetric(a: Seq<Seq<char>>, b: Seq<Seq<char>>)
    ensures
        share_item(a, b) == share_item(b, a),
{
    if share_item(a, b) {
        let (i, j) = choose|i: int, j: int| 0 <= i < a.len() && 0 <= j < b.len() && #[trigger] a[i] == #[trigger] b[j];
        assert(b[j] == a[i]);
    }
    if share_item(b, a) {
        let (i, j) = choose|i: int, j: int| 0 <= i < b.len() && 0 <= j < a.len() && #[trigger] b[i] == #[trigger] a[j];
        assert(a[j] == b[i]);
    }
}

/// Whether any text of `second` also occurs in `first`.
pub fn identical(first: &Vec<String>, second: &Vec<String>) -> (r: bool)
    ensures
        r == share_item(texts(first@), texts(second@)),
{
    let mut j: usize = 0;
    while j < second.len()
        invariant
            j <= second@.len(),
            forall|a: int, b: int| 0 <= a < first@.len() && 0 <= b < j ==> first@[a]@ != second@[b]@,
        decreases second@.len() - j,
    {
        let mut i: usize = 0;
        while i < first.len()
            invariant
                i <= first@.len(),
                j < second@.len(),
                forall|a: int, b: int| 0 <= a < first@.len() && 0 <= b < j ==> first@[a]@ != second@[b]@,
                forall|a: int| 0 <= a < i ==> first@[a]@ != second@[j as int]@,
            decreases first@.len() - i,
        {
            if first[i] == second[j] {
                proof {
                    assert(texts(first@)[i as int] == texts(second@)[j as int]);
                }
                return true;
            }
            i = i + 1;
        }
        j = j + 1;
    }
    proof {
        if share_item(texts(first@), texts(second@)) {
            let (a, b) = choose|a: int, b: int| 0 <= a < texts(first@).len() && 0 <= b < texts(second@).len()
                && #[trigger] texts(first@)[a] == #[trigger] texts(second@)[b];
            assert(first@[a]@ == second@[b]@);
        }
    }
    false
}

/// The names of the artists, in order.
pub fn names_of(artists: &Vec<Artist>) -> (names: Vec<String>)
    ensures
        texts(names@) == artist_names(artists@),
{
    let mut names: Vec<String> = Vec::new();
    let mut i: usize = 0;
    while i < artists.len()
        invariant
            i <= artists@.len(),
            texts(names@) =~= artist_names(artists@).take(i as int),
        decreases artists@.len() - i,
    {
        names.push(artists[i].name.clone());
        proof {
            assert(artist_names(artists@).take(i + 1) =~= artist_names(artists@).take(i as int).push(artists@[i as int].name@));
        }
        i = i + 1;
    }
    proof {
        assert(artist_names(artists@).take(i as int) =~= artist_names(artists@));
    }
    names
}

} // verus!
