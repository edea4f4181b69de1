//! The order in which the library lists its songs: by title, then album,
//! disc, track and file path, with texts compared byte by byte as Rust
//! compares strings.

use crate::model::Song;
use std::sync::Arc;
use vstd::prelude::*;
use vstd::utf8::encode_utf8;

verus! {

/// Three-way lexicographic comparison of byte sequences: negative, zero or
/// positive as `a` sorts before, equal to or after `b`.
pub open spec fn lex_order(a: Seq<u8>, b: Seq<u8>) -> int
    decreases a.len(),
{
    if a.len() == 0 {
        if b.len() == 0 { 0 } else { -1 }
    } else if b.len() == 0 {
        1
    } else if a[0] < b[0] {
        -1
    } else if a[0] > b[0] {
        1
    } else {
        lex_order(a.drop_first(), b.drop_first())
    }
}

/// Three-way comparison of integers.
pub open spec fn int_order(a: int, b: int) -> int {
    if a < b { -1 } else if a > b { 1 } else { 0 }
}

/// The bytes of a text in UTF-8, as `str::as_bytes` gives them.
pub open spec fn text_bytes(s: Seq<char>) -> Seq<u8> {
    encode_utf8(s)
}

/// Three-way comparison of songs by title, album, disc, track and path.
pub open spec fn song_order(a: Song, b: Song) -> int {
    let t = lex_order(text_bytes(a.title@), text_bytes(b.title@));
    let al = lex_order(text_bytes(a.album@), text_bytes(b.album@));
    let d = int_order(a.disc_number as int, b.disc_number as int);
    let tr = int_order(a.track_number as int, b.track_number as int);
    let p = lex_order(a.path@, b.path@);
    if t != 0 { t } else if al != 0 { al } else if d != 0 { d } else if tr != 0 { tr } else { p }
}

/// The identifying parts of a song that the order looks at.
pub open spec fn song_key(a: Song) -> (Seq<u8>, Seq<u8>, i32, i32, Seq<u8>) {
    (text_bytes(a.title@), text_bytes(a.album@), a.disc_number, a.track_number, a.path@)
}

/// The song behind a shared handle.
pub open spec fn song_of(a: Arc<Song>) -> Song {
    *a
}

/// Songs sorted, equal keys allowed next to each other.
pub open spec fn sorted(s: Seq<Arc<Song>>) -> bool {
    forall|i: int, j: int| 0 <= i < j < s.len() ==> song_order(*s[i], *s[j]) <= 0
}

pub proof fn lemma_lex_order_antisym(a: Seq<u8>, b: Seq<u8>)
    ensures
        lex_order(a, b) == -lex_order(b, a),
        -1 <= lex_order(a, b) <= 1,
        lex_order(a, b) == 0 <==> a == b,
    decreases a.len(),
{
    if a.len() > 0 && b.len() > 0 && a[0] == b[0] {
        lemma_lex_order_antisym(a.drop_first(), b.drop_first());
        if a.drop_first() == b.drop_first() {
            assert(a =~= seq![a[0]] + a.drop_first());
            assert(b =~= seq![b[0]] + b.drop_first());
        }
        if a == b {
            assert(a.drop_first() =~= b.drop_first());
        }
    } else if a.len() == 0 && b.len() == 0 {
        assert(a =~= b);
    }
}

pub proof fn lemma_lex_order_trans(a: Seq<u8>, b: Seq<u8>, c: Seq<u8>)
    requires
        lex_order(a, b) < 0,
        lex_order(b, c) < 0,
    ensures
        lex_order(a, c) < 0,
    decreases a.len(),
{
    if a.len() > 0 && b.len() > 0 && c.len() > 0 && a[0] == b[0] && b[0] == c[0] {
        lemma_lex_order_trans(a.drop_first(), b.drop_first(), c.drop_first());
    }
}

pub proof fn lemma_song_order_antisym(a: Song, b: Song)
    ensures
        song_order(a, b) == -song_order(b, a),
        -1 <= song_order(a, b) <= 1,
        song_order(a, b) == 0 <==> song_key(a) == song_key(b),
{
    lemma_lex_order_antisym(text_bytes(a.title@), text_bytes(b.title@));
    lemma_lex_order_antisym(text_bytes(a.album@), text_bytes(b.album@));
    lemma_lex_order_antisym(a.path@, b.path@);
}

pub proof fn lemma_song_order_trans(a: Song, b: Song, c: Song)
    requires
        song_order(a, b) <= 0,
        song_order(b, c) <= 0,
    ensures
        song_order(a, c) <= 0,
        song_order(a, b) < 0 || song_order(b, c) < 0 ==> song_order(a, c) < 0,
{
    let (ta, tb, tc) = (text_bytes(a.title@), text_bytes(b.title@), text_bytes(c.title@));
    let (aa, ab, ac) = (text_bytes(a.album@), text_bytes(b.album@), text_bytes(c.album@));
    lemma_lex_order_antisym(ta, tb);
    lemma_lex_order_antisym(tb, tc);
    lemma_lex_order_antisym(ta, tc);
    lemma_lex_order_antisym(aa, ab);
    lemma_lex_order_antisym(ab, ac);
    lemma_lex_order_antisym(aa, ac);
    lemma_lex_order_antisym(a.path@, b.path@);
    lemma_lex_order_antisym(b.path@, c.path@);
    lemma_lex_order_antisym(a.path@, c.path@);
    if lex_order(ta, tb) != 0 || lex_order(tb, tc) != 0 {
        if lex_order(ta, tb) < 0 && lex_order(tb, tc) < 0 {
            lemma_lex_order_trans(ta, tb, tc);
        }
    } else if lex_order(aa, ab) != 0 || lex_order(ab, ac) != 0 {
        assert(ta == tc);
        if lex_order(aa, ab) < 0 && lex_order(ab, ac) < 0 {
            lemma_lex_order_trans(aa, ab, ac);
        }
    } else {
        assert(ta == tc);
        assert(aa == ac);
        if lex_order(a.path@, b.path@) < 0 && lex_order(b.path@, c.path@) < 0 {
            lemma_lex_order_trans(a.path@, b.path@, c.path@);
        }
    }
}

/// Songs with the same key compare alike with every other song.
pub proof fn lemma_song_order_same_key(a: Song, b: Song, c: Song)
    requires
        song_order(a, b) == 0,
    ensures
        song_order(a, c) == song_order(b, c),
        song_order(c, a) == song_order(c, b),
{
    lemma_song_order_antisym(a, b);
}

/// Which part decides: a song whose title's bytes sort first comes first;
/// with the same title, the album decides, then the disc, then the track,
/// then the path.
pub proof fn lemma_song_order_priority(a: Song, b: Song)
    ensures
        lex_order(text_bytes(a.title@), text_bytes(b.title@)) < 0 ==> song_order(a, b) < 0,
        a.title@ == b.title@ && lex_order(text_bytes(a.album@), text_bytes(b.album@)) < 0 ==> song_order(a, b) < 0,
        a.title@ == b.title@ && a.album@ == b.album@ && a.disc_number < b.disc_number ==> song_order(a, b) < 0,
        a.title@ == b.title@ && a.album@ == b.album@ && a.disc_number == b.disc_number
            && a.track_number < b.track_number ==> song_order(a, b) < 0,
        a.title@ == b.title@ && a.album@ == b.album@ && a.disc_number == b.disc_number
            && a.track_number == b.track_number && lex_order(a.path@, b.path@) < 0 ==> song_order(a, b) < 0,
{
    lemma_lex_order_antisym(text_bytes(a.title@), text_bytes(b.title@));
    lemma_lex_order_antisym(text_bytes(a.album@), text_bytes(b.album@));
}

/// Compares two byte strings lexicographically.
pub fn compare_bytes(a: &[u8], b: &[u8]) -> (r: i8)
    ensures
        r as int == lex_order(a@, b@),
{
    let mut i: usize = 0;
    assert(a@.skip(0) =~= a@);
    assert(b@.skip(0) =~= b@);
    while i < a.len() && i < b.len()
        invariant
            i <= a@.len(),
            i <= b@.len(),
            lex_order(a@, b@) == lex_order(a@.skip(i as int), b@.skip(i as int)),
        decreases a@.len() - i,
    {
        if a[i] < b[i] {
            return -1;
        } else if a[i] > b[i] {
            return 1;
        }
        assert(a@.skip(i as int).drop_first() =~= a@.skip(i + 1));
        assert(b@.skip(i as int).drop_first() =~= b@.skip(i + 1));
        i = i + 1;
    }
    if i < a.len() {
        1
    } else if i < b.len() {
        -1
    } else {
        0
    }
}

fn compare_ints(a: i32, b: i32) -> (r: i8)
    ensures
        r as int == int_order(a as int, b as int),
{
    if a < b { -1 } else if a > b { 1 } else { 0 }
}

/// Compares two songs in the library's order.
pub fn compare_songs(a: &Song, b: &Song) -> (r: i8)
    ensures
        r as int == song_order(*a, *b),
{
    let t: i8 = compare_bytes(a.title.as_str().as_bytes(), b.title.as_str().as_bytes());
    if t != 0 {
        return t;
    }
    let al: i8 = compare_bytes(a.album.as_str().as_bytes(), b.album.as_str().as_bytes());
    if al != 0 {
        return al;
    }
    let d: i8 = compare_ints(a.disc_number, b.disc_number);
    if d != 0 {
        return d;
    }
    let tr: i8 = compare_ints(a.track_number, b.track_number);
    if tr != 0 {
        return tr;
    }
    compare_bytes(a.path.as_slice(), b.path.as_slice())
}

} // verus!
