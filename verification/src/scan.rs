//! Sorting the songs found in a directory into albums, and choosing the
//! artists credited for each album.

use crate::library::texts;
use crate::model::{Artist, UncommittedSong};
use vstd::prelude::*;

verus! {

/// Songs found together that make one album: the album name and album
/// artists they share, and the songs in the order they were found.
pub struct AlbumGroup {
    pub name: String,
    pub album_artists: Vec<String>,
    pub songs: Vec<UncommittedSong>,
}

/// What songs are grouped by: album name and album artists.
pub open spec fn song_key(s: UncommittedSong) -> (Seq<char>, Seq<Seq<char>>) {
    (s.song.album@, texts(s.song.album_artists@))
}

pub open spec fn group_key(g: AlbumGroup) -> (Seq<char>, Seq<Seq<char>>) {
    (g.name@, texts(g.album_artists@))
}

/// The songs with the given key, in order.
pub open spec fn songs_with_key(songs: Seq<UncommittedSong>, k: (Seq<char>, Seq<Seq<char>>)) -> Seq<UncommittedSong>
    decreases songs.len(),
{
    if songs.len() == 0 {
        Seq::empty()
    } else {
        let r = songs_with_key(songs.drop_last(), k);
        if song_key(songs.last()) == k { r.push(songs.last()) } else { r }
    }
}

/// Some group has the key.
pub open spec fn has_group(groups: Seq<AlbumGroup>, k: (Seq<char>, Seq<Seq<char>>)) -> bool {
    exists|a: int| 0 <= a < groups.len() && group_key(#[trigger] groups[a]) == k
}

/// The groups partition the songs: their keys differ, each holds exactly the
/// songs of its key in their order and is not empty, and every song's key has
/// a group.
pub open spec fn partitions(groups: Seq<AlbumGroup>, songs: Seq<UncommittedSong>) -> bool {
    &&& forall|a: int, b: int| 0 <= a < b < groups.len() ==> group_key(#[trigger] groups[a]) != group_key(#[trigger] groups[b])
    &&& forall|a: int| 0 <= a < groups.len() ==> (#[trigger] groups[a]).songs@ == songs_with_key(songs, group_key(groups[a]))
    &&& forall|a: int| 0 <= a < groups.len() ==> (#[trigger] groups[a]).songs@.len() > 0
    &&& forall|i: int| 0 <= i < songs.len() ==> has_group(groups, song_key(#[trigger] songs[i]))
}

/// A song of key `first` comes before any song of key `second`.
pub open spec fn key_comes_first(songs: Seq<UncommittedSong>, first: (Seq<char>, Seq<Seq<char>>), second: (Seq<char>, Seq<Seq<char>>)) -> bool {
    exists|i: int| 0 <= i < songs.len() && song_key(#[trigger] songs[i]) == first
        && forall|j: int| 0 <= j <= i ==> song_key(#[trigger] songs[j]) != second
}

/// The groups come in the order in which their albums were first found.
pub open spec fn in_order_found(groups: Seq<AlbumGroup>, songs: Seq<UncommittedSong>) -> bool {
    forall|a: int, b: int| 0 <= a < b < groups.len() ==> key_comes_first(songs, group_key(#[trigger] groups[a]), group_key(#[trigger] groups[b]))
}

/// Whether two lists of texts are equal.
pub fn same_texts(a: &Vec<String>, b: &Vec<String>) -> (r: bool)
    ensures
        r == (texts(a@) == texts(b@)),
{
    if a.len() != b.len() {
        proof {
            assert(texts(a@).len() != texts(b@).len());
        }
        return false;
    }
    let mut i: usize = 0;
    while i < a.len()
        invariant
            a@.len() == b@.len(),
            i <= a@.len(),
            forall|j: int| 0 <= j < i ==> a@[j]@ == b@[j]@,
        decreases a@.len() - i,
    {
        if a[i] != b[i] {
            proof {
                assert(texts(a@)[i as int] != texts(b@)[i as int]);
            }
            return false;
        }
        i = i + 1;
    }
    proof {
        assert(texts(a@) =~= texts(b@));
    }
    true
}

/// A copy of a list of texts.
pub fn copy_texts(a: &Vec<String>) -> (r: Vec<String>)
    ensures
        texts(r@) == texts(a@),
{
    let mut r: Vec<String> = Vec::new();
    let mut i: usize = 0;
    while i < a.len()
        invariant
            i <= a@.len(),
            texts(r@) =~= texts(a@).take(i as int),
        decreases a@.len() - i,
    {
        r.push(a[i].clone());
        proof {
            assert(texts(a@).take(i + 1) =~= texts(a@).take(i as int).push(a@[i as int]@));
        }
        i = i + 1;
    }
    proof {
        assert(texts(a@).take(i as int) =~= texts(a@));
    }
    r
}

proof fn lemma_songs_with_key_push(songs: Seq<UncommittedSong>, s: UncommittedSong, k: (Seq<char>, Seq<Seq<char>>))
    ensures
        songs_with_key(songs.push(s), k) == if song_key(s) == k {
            songs_with_key(songs, k).push(s)
        } else {
            songs_with_key(songs, k)
        },
{
    assert(songs.push(s).drop_last() =~= songs);
}

/// Sorts songs into albums by album name and album artists, keeping the order
/// in which they were found.
pub fn group_by_album(songs: Vec<UncommittedSong>) -> (groups: Vec<AlbumGroup>)
    ensures
        partitions(groups@, songs@),
        in_order_found(groups@, songs@),
        forall|a: int, m: int| 0 <= a < groups@.len() && 0 <= m < groups@[a].songs@.len() ==>
            (#[trigger] groups@[a].songs@[m]).song.album@ == groups@[a].name@
            && texts(groups@[a].songs@[m].song.album_artists@) == texts(groups@[a].album_artists@),
{
    let ghost all = songs@;
    let n: usize = songs.len();
    let mut songs = songs;
    let mut reversed: Vec<UncommittedSong> = Vec::new();
    while songs.len() > 0
        invariant
            songs@.len() + reversed@.len() == n,
            n == all.len(),
            forall|j: int| 0 <= j < songs@.len() ==> songs@[j] == all[j],
            forall|j: int| 0 <= j < reversed@.len() ==> reversed@[j] == all[n - 1 - j],
        decreases songs@.len(),
    {
        let s = songs.pop().unwrap();
        reversed.push(s);
    }
    let mut groups: Vec<AlbumGroup> = Vec::new();
    let mut k: usize = 0;
    proof {
        assert(all.take(0) =~= Seq::<UncommittedSong>::empty());
    }
    while reversed.len() > 0
        invariant
            reversed@.len() + k == n,
            n == all.len(),
            forall|j: int| 0 <= j < reversed@.len() ==> reversed@[j] == all[n - 1 - j],
            partitions(groups@, all.take(k as int)),
            in_order_found(groups@, all.take(k as int)),
        decreases reversed@.len(),
    {
        let s = reversed.pop().unwrap();
        assert(s == all[k as int]);
        let ghost seen = all.take(k as int);
        let ghost old_groups = groups@;
        assert(all.take(k + 1) =~= seen.push(s));
        let mut g: usize = 0;
        while g < groups.len()
            invariant
                g <= groups@.len(),
                groups@ == old_groups,
                forall|a: int| 0 <= a < g ==> group_key(#[trigger] groups@[a]) != song_key(s),
            ensures
                g <= groups@.len(),
                groups@ == old_groups,
                forall|a: int| 0 <= a < g ==> group_key(#[trigger] groups@[a]) != song_key(s),
                g < groups@.len() ==> group_key(groups@[g as int]) == song_key(s),
            decreases groups@.len() - g,
        {
            if groups[g].name == s.song.album && same_texts(&groups[g].album_artists, &s.song.album_artists) {
                break;
            }
            g = g + 1;
        }
        if g < groups.len() {
            groups[g].songs.push(s);
            proof {
                assert forall|a: int| 0 <= a < groups@.len() implies (#[trigger] groups@[a]).songs@ == songs_with_key(all.take(k + 1), group_key(groups@[a])) by {
                    lemma_songs_with_key_push(seen, s, group_key(groups@[a]));
                    if a != g {
                        assert(groups@[a] == old_groups[a]);
                        assert(group_key(old_groups[a]) != group_key(old_groups[g as int]));
                    }
                }
                assert forall|i: int| 0 <= i < all.take(k + 1).len() implies has_group(groups@, song_key(#[trigger] all.take(k + 1)[i])) by {
                    if i < k {
                        assert(all.take(k + 1)[i] == seen[i]);
                        assert(has_group(old_groups, song_key(seen[i])));
                        let a: int = choose|a: int| 0 <= a < old_groups.len() && group_key(#[trigger] old_groups[a]) == song_key(seen[i]);
                        assert(group_key(groups@[a]) == group_key(old_groups[a]));
                    } else {
                        assert(group_key(groups@[g as int]) == song_key(all.take(k + 1)[i]));
                    }
                }
                assert forall|a: int, b: int| 0 <= a < b < groups@.len() implies group_key(#[trigger] groups@[a]) != group_key(#[trigger] groups@[b]) by {
                    assert(group_key(groups@[a]) == group_key(old_groups[a]));
                    assert(group_key(groups@[b]) == group_key(old_groups[b]));
                }
                assert forall|a: int, b: int| 0 <= a < b < groups@.len() implies key_comes_first(all.take(k + 1), group_key(#[trigger] groups@[a]), group_key(#[trigger] groups@[b])) by {
                    assert(group_key(groups@[a]) == group_key(old_groups[a]));
                    assert(group_key(groups@[b]) == group_key(old_groups[b]));
                    lemma_comes_first_extends(seen, s, group_key(old_groups[a]), group_key(old_groups[b]));
                }
            }
        } else {
            assert(!has_group(groups@, song_key(s)));
            let name = s.song.album.clone();
            let album_artists = copy_texts(&s.song.album_artists);
            let mut members: Vec<UncommittedSong> = Vec::new();
            members.push(s);
            let fresh = AlbumGroup { name, album_artists, songs: members };
            assert(group_key(fresh) == song_key(s));
            groups.push(fresh);
            proof {
                assert(songs_with_key(seen, song_key(s)) =~= Seq::<UncommittedSong>::empty()) by {
                    lemma_no_key(seen, old_groups, song_key(s));
                }
                assert forall|a: int| 0 <= a < groups@.len() implies (#[trigger] groups@[a]).songs@ == songs_with_key(all.take(k + 1), group_key(groups@[a])) by {
                    lemma_songs_with_key_push(seen, s, group_key(groups@[a]));
                    if a < old_groups.len() {
                        assert(groups@[a] == old_groups[a]);
                    } else {
                        assert(groups@[a].songs@ =~= Seq::<UncommittedSong>::empty().push(s));
                    }
                }
                assert forall|i: int| 0 <= i < all.take(k + 1).len() implies has_group(groups@, song_key(#[trigger] all.take(k + 1)[i])) by {
                    if i < k {
                        assert(all.take(k + 1)[i] == seen[i]);
                        assert(has_group(old_groups, song_key(seen[i])));
                        let a: int = choose|a: int| 0 <= a < old_groups.len() && group_key(#[trigger] old_groups[a]) == song_key(seen[i]);
                        assert(groups@[a] == old_groups[a]);
                    } else {
                        assert(group_key(groups@[old_groups.len() as int]) == song_key(all.take(k + 1)[i]));
                    }
                }
                assert forall|a: int, b: int| 0 <= a < b < groups@.len() implies group_key(#[trigger] groups@[a]) != group_key(#[trigger] groups@[b]) by {
                    if b < old_groups.len() {
                        assert(groups@[a] == old_groups[a]);
                        assert(groups@[b] == old_groups[b]);
                    } else {
                        assert(groups@[a] == old_groups[a]);
                    }
                }
                assert forall|a: int, b: int| 0 <= a < b < groups@.len() implies key_comes_first(all.take(k + 1), group_key(#[trigger] groups@[a]), group_key(#[trigger] groups@[b])) by {
                    assert(groups@[a] == old_groups[a]);
                    if b < old_groups.len() {
                        assert(groups@[b] == old_groups[b]);
                        lemma_comes_first_extends(seen, s, group_key(old_groups[a]), group_key(old_groups[b]));
                    } else {
                        assert(group_key(groups@[b]) == song_key(s));
                        lemma_comes_before_new(seen, s, old_groups, a);
                    }
                }
            }
        }
        k = k + 1;
    }
    proof {
        assert(all.take(n as int) =~= all);
        lemma_groups_hold_their_album(groups@, all);
    }
    groups
}

/// In groups that partition songs, every song of a group has the group's
/// album name and album artists, and every song has a group with its album
/// name and album artists.
pub proof fn lemma_groups_hold_their_album(groups: Seq<AlbumGroup>, songs: Seq<UncommittedSong>)
    requires
        partitions(groups, songs),
    ensures
        forall|a: int, m: int| 0 <= a < groups.len() && 0 <= m < groups[a].songs@.len() ==>
            (#[trigger] groups[a].songs@[m]).song.album@ == groups[a].name@
            && texts(groups[a].songs@[m].song.album_artists@) == texts(groups[a].album_artists@),
        forall|i: int| 0 <= i < songs.len() ==> exists|a: int| 0 <= a < groups.len()
            && (#[trigger] groups[a]).name@ == (#[trigger] songs[i]).song.album@
            && texts(groups[a].album_artists@) == texts(songs[i].song.album_artists@),
{
    assert forall|a: int, m: int| 0 <= a < groups.len() && 0 <= m < groups[a].songs@.len() implies
        (#[trigger] groups[a].songs@[m]).song.album@ == groups[a].name@
        && texts(groups[a].songs@[m].song.album_artists@) == texts(groups[a].album_artists@) by {
        assert(groups[a].songs@ == songs_with_key(songs, group_key(groups[a])));
        lemma_with_key_member(songs, group_key(groups[a]), m);
        assert(song_key(groups[a].songs@[m]) == group_key(groups[a]));
    }
    assert forall|i: int| 0 <= i < songs.len() implies exists|a: int| 0 <= a < groups.len()
        && (#[trigger] groups[a]).name@ == (#[trigger] songs[i]).song.album@
        && texts(groups[a].album_artists@) == texts(songs[i].song.album_artists@) by {
        assert(has_group(groups, song_key(songs[i])));
        let a: int = choose|a: int| 0 <= a < groups.len() && group_key(#[trigger] groups[a]) == song_key(songs[i]);
        assert(group_key(groups[a]) == song_key(songs[i]));
    }
}

proof fn lemma_comes_first_extends(seen: Seq<UncommittedSong>, s: UncommittedSong, x: (Seq<char>, Seq<Seq<char>>), y: (Seq<char>, Seq<Seq<char>>))
    requires
        key_comes_first(seen, x, y),
    ensures
        key_comes_first(seen.push(s), x, y),
{
    let i: int = choose|i: int| 0 <= i < seen.len() && song_key(#[trigger] seen[i]) == x
        && forall|j: int| 0 <= j <= i ==> song_key(#[trigger] seen[j]) != y;
    let t = seen.push(s);
    assert(t[i] == seen[i]);
    assert forall|j: int| 0 <= j <= i implies song_key(#[trigger] t[j]) != y by {
        assert(t[j] == seen[j]);
    }
}

proof fn lemma_comes_before_new(seen: Seq<UncommittedSong>, s: UncommittedSong, groups: Seq<AlbumGroup>, a: int)
    requires
        0 <= a < groups.len(),
        partitions(groups, seen),
        !has_group(groups, song_key(s)),
    ensures
        key_comes_first(seen.push(s), group_key(groups[a]), song_key(s)),
{
    let k = group_key(groups[a]);
    assert(groups[a].songs@.len() > 0);
    let first = groups[a].songs@[0];
    lemma_with_key_member(seen, k, 0);
    let i: int = choose|i: int| 0 <= i < seen.len() && seen[i] == first && song_key(first) == k;
    let t = seen.push(s);
    assert(t[i] == seen[i]);
    assert forall|j: int| 0 <= j <= i implies song_key(#[trigger] t[j]) != song_key(s) by {
        assert(t[j] == seen[j]);
        assert(has_group(groups, song_key(seen[j])));
    }
}

/// Every song with a key is one of the songs, and has that key.
proof fn lemma_with_key_member(songs: Seq<UncommittedSong>, k: (Seq<char>, Seq<Seq<char>>), m: int)
    requires
        0 <= m < songs_with_key(songs, k).len(),
    ensures
        exists|i: int| 0 <= i < songs.len() && songs[i] == songs_with_key(songs, k)[m] && song_key(songs_with_key(songs, k)[m]) == k,
    decreases songs.len(),
{
    let front = songs.drop_last();
    let r = songs_with_key(front, k);
    if m < r.len() {
        lemma_with_key_member(front, k, m);
        let i: int = choose|i: int| 0 <= i < front.len() && front[i] == r[m] && song_key(r[m]) == k;
        assert(songs[i] == front[i]);
    } else {
        assert(songs[songs.len() - 1] == songs.last());
    }
}

/// Songs whose key has no group are none of the songs seen.
proof fn lemma_no_key(seen: Seq<UncommittedSong>, groups: Seq<AlbumGroup>, k: (Seq<char>, Seq<Seq<char>>))
    requires
        forall|i: int| 0 <= i < seen.len() ==> has_group(groups, song_key(#[trigger] seen[i])),
        !has_group(groups, k),
    ensures
        songs_with_key(seen, k) == Seq::<UncommittedSong>::empty(),
    decreases seen.len(),
{
    if seen.len() > 0 {
        let front = seen.drop_last();
        assert forall|i: int| 0 <= i < front.len() implies has_group(groups, song_key(#[trigger] front[i])) by {
            assert(front[i] == seen[i]);
        }
        lemma_no_key(front, groups, k);
        assert(has_group(groups, song_key(seen[seen.len() - 1])));
    }
}


/// Artists that `==` compares equal: same name and same stored flag.
pub open spec fn same_artist(a: Artist, b: Artist) -> bool {
    a.name@ == b.name@ && a.committed == b.committed
}

/// The list with each run of equal neighbours cut down to its first, as
/// `Vec::dedup` does.
pub open spec fn dedup_artists(s: Seq<Artist>) -> Seq<Artist>
    decreases s.len(),
{
    if s.len() <= 1 {
        s
    } else if same_artist(s[s.len() - 2], s.last()) {
        dedup_artists(s.drop_last())
    } else {
        dedup_artists(s.drop_last()).push(s.last())
    }
}

/// The artists of all songs, song after song.
pub open spec fn song_artists(songs: Seq<UncommittedSong>) -> Seq<Artist>
    decreases songs.len(),
{
    if songs.len() == 0 {
        Seq::empty()
    } else {
        song_artists(songs.drop_last()) + songs.last().song.artists@
    }
}

proof fn lemma_dedup_last(s: Seq<Artist>)
    requires
        s.len() > 0,
    ensures
        dedup_artists(s).len() > 0,
        same_artist(dedup_artists(s).last(), s.last()),
    decreases s.len(),
{
    if s.len() > 1 && same_artist(s[s.len() - 2], s.last()) {
        lemma_dedup_last(s.drop_last());
    }
}

/// No two neighbours of the cut-down list are equal.
pub proof fn lemma_dedup_no_repeats(s: Seq<Artist>)
    ensures
        forall|i: int| 0 <= i < dedup_artists(s).len() - 1 ==> !same_artist(
            #[trigger] dedup_artists(s)[i],
            dedup_artists(s)[i + 1],
        ),
    decreases s.len(),
{
    if s.len() > 1 {
        let front = s.drop_last();
        lemma_dedup_no_repeats(front);
        lemma_dedup_last(front);
        let r = dedup_artists(front);
        if !same_artist(s[s.len() - 2], s.last()) {
            assert(front.last() == s[s.len() - 2]);
            assert forall|i: int| 0 <= i < dedup_artists(s).len() - 1 implies !same_artist(
                #[trigger] dedup_artists(s)[i],
                dedup_artists(s)[i + 1],
            ) by {
                if i < r.len() - 1 {
                    assert(dedup_artists(s)[i] == r[i]);
                    assert(dedup_artists(s)[i + 1] == r[i + 1]);
                } else {
                    assert(dedup_artists(s)[i] == r.last());
                }
            }
        }
    }
}

/// A list without equal neighbours is left as it is, and no list grows.
pub proof fn lemma_dedup_keeps_distinct(s: Seq<Artist>)
    ensures
        dedup_artists(s).len() <= s.len(),
        (forall|i: int| 0 <= i < s.len() - 1 ==> !same_artist(#[trigger] s[i], s[i + 1])) ==> dedup_artists(s) == s,
    decreases s.len(),
{
    if s.len() > 1 {
        let front = s.drop_last();
        lemma_dedup_keeps_distinct(front);
        if forall|i: int| 0 <= i < s.len() - 1 ==> !same_artist(#[trigger] s[i], s[i + 1]) {
            assert forall|i: int| 0 <= i < front.len() - 1 implies !same_artist(#[trigger] front[i], front[i + 1]) by {
                assert(front[i] == s[i]);
                assert(front[i + 1] == s[i + 1]);
            }
            assert(!same_artist(s[s.len() - 2], s[s.len() - 1]));
            assert(front.push(s.last()) =~= s);
        }
    }
}

/// Cutting down twice cuts nothing more.
pub proof fn lemma_dedup_idempotent(s: Seq<Artist>)
    ensures
        dedup_artists(dedup_artists(s)) == dedup_artists(s),
{
    lemma_dedup_no_repeats(s);
    lemma_dedup_keeps_distinct(dedup_artists(s));
}

/// Cuts each run of equal neighbours down to its first.
pub fn dedup(v: &Vec<Artist>) -> (r: Vec<Artist>)
    ensures
        r@ == dedup_artists(v@),
{
    let mut r: Vec<Artist> = Vec::new();
    let mut i: usize = 0;
    while i < v.len()
        invariant
            i <= v@.len(),
            r@ == dedup_artists(v@.take(i as int)),
        decreases v@.len() - i,
    {
        let ghost prefix = v@.take(i as int);
        proof {
            assert(v@.take(i + 1).drop_last() =~= prefix);
            assert(v@.take(i + 1).last() == v@[i as int]);
            if i > 0 {
                lemma_dedup_last(prefix);
                assert(prefix.last() == v@[i - 1]);
                assert(v@.take(i + 1)[i - 1] == v@[i - 1]);
            }
        }
        let repeat = r.len() > 0 && r[r.len() - 1].name == v[i].name && r[r.len() - 1].committed == v[i].committed;
        if !repeat {
            r.push(v[i].duplicate());
        }
        proof {
            if i == 0 {
                assert(v@.take(1) =~= seq![v@[0]]);
                assert(r@ =~= v@.take(1));
            }
        }
        i = i + 1;
    }
    proof {
        assert(v@.take(i as int) =~= v@);
    }
    r
}

/// The artists of all songs of a group, song after song.
fn collect_song_artists(songs: &Vec<UncommittedSong>) -> (r: Vec<Artist>)
    ensures
        r@ == song_artists(songs@),
{
    let mut r: Vec<Artist> = Vec::new();
    let mut i: usize = 0;
    proof {
        assert(songs@.take(0) =~= Seq::<UncommittedSong>::empty());
    }
    while i < songs.len()
        invariant
            i <= songs@.len(),
            r@ == song_artists(songs@.take(i as int)),
        decreases songs@.len() - i,
    {
        let artists = &songs[i].song.artists;
        let ghost before = r@;
        let mut j: usize = 0;
        proof {
            assert(before + artists@.take(0) =~= before);
        }
        while j < artists.len()
            invariant
                j <= artists@.len(),
                r@ == before + artists@.take(j as int),
            decreases artists@.len() - j,
        {
            r.push(artists[j].duplicate());
            proof {
                assert(before + artists@.take(j + 1) =~= (before + artists@.take(j as int)).push(artists@[j as int]));
            }
            j = j + 1;
        }
        proof {
            assert(artists@.take(j as int) =~= artists@);
            assert(songs@.take(i + 1).drop_last() =~= songs@.take(i as int));
        }
        i = i + 1;
    }
    proof {
        assert(songs@.take(i as int) =~= songs@);
    }
    r
}

/// The artists credited for an album made of a group: its album artists,
/// not yet stored, where the songs name any; otherwise the artists of all its
/// songs, song after song, with runs of equal neighbours cut down to one.
pub fn credited_artists(group: &AlbumGroup) -> (artists: Vec<Artist>)
    ensures
        group.album_artists@.len() == 0 ==> artists@ == dedup_artists(song_artists(group.songs@)),
        group.album_artists@.len() > 0 ==> artists@.map_values(|a: Artist| a.name@) == texts(group.album_artists@),
        group.album_artists@.len() > 0 ==> forall|i: int| 0 <= i < artists@.len() ==> !(#[trigger] artists@[i]).committed,
{
    if group.album_artists.len() == 0 {
        let all = collect_song_artists(&group.songs);
        dedup(&all)
    } else {
        let mut r: Vec<Artist> = Vec::new();
        let mut i: usize = 0;
        while i < group.album_artists.len()
            invariant
                i <= group.album_artists@.len(),
                r@.map_values(|a: Artist| a.name@) =~= texts(group.album_artists@).take(i as int),
                forall|k: int| 0 <= k < r@.len() ==> !(#[trigger] r@[k]).committed,
            decreases group.album_artists@.len() - i,
        {
            r.push(Artist::from(group.album_artists[i].clone()));
            proof {
                assert(texts(group.album_artists@).take(i + 1) =~= texts(group.album_artists@).take(i as int).push(group.album_artists@[i as int]@));
            }
            i = i + 1;
        }
        proof {
            assert(texts(group.album_artists@).take(i as int) =~= texts(group.album_artists@));
        }
        r
    }
}

} // verus!
