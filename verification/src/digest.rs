//! Digests: byte-wise exclusive or of fixed-size digests, and the digest of an
//! album as the combination of its songs' digests.

use crate::model::UncommittedSong;
use vstd::prelude::*;

verus! {

/// Byte-wise exclusive or of two byte sequences of equal length.
pub open spec fn xor_bytes(a: Seq<u8>, b: Seq<u8>) -> Seq<u8> {
    Seq::new(a.len(), |i: int| a[i] ^ b[i])
}

/// Combines two digests byte by byte with exclusive or.
pub fn combine<const T: usize>(a: &[u8; T], b: &[u8; T]) -> (r: [u8; T])
    ensures
        r@ == xor_bytes(a@, b@),
{
    let mut r: [u8; T] = vstd::array::array_fill_for_copy_types(0u8);
    let mut i: usize = 0;
    while i < T
        invariant
            i <= T,
            r@.len() == T,
            a@.len() == T,
            b@.len() == T,
            forall|j: int| 0 <= j < i ==> r@[j] == a@[j] ^ b@[j],
        decreases T - i,
    {
        let x: u8 = a[i] ^ b[i];
        r[i] = x;
        i = i + 1;
    }
    proof {
        assert(r@ =~= xor_bytes(a@, b@));
    }
    r
}

/// The all-zero digest.
pub open spec fn zero_digest() -> Seq<u8> {
    Seq::new(32, |i: int| 0u8)
}

/// The exclusive or of all digests, from the all-zero digest on.
pub open spec fn xor_all(ds: Seq<Seq<u8>>) -> Seq<u8>
    decreases ds.len(),
{
    if ds.len() == 0 {
        zero_digest()
    } else {
        xor_bytes(xor_all(ds.drop_last()), ds.last())
    }
}

/// The digests of the songs, in order.
pub open spec fn song_digests(songs: Seq<UncommittedSong>) -> Seq<Seq<u8>> {
    songs.map_values(|s: UncommittedSong| s.hash@)
}

/// The digest of a set of songs: the exclusive or of their digests.
pub fn hash_songs(songs: &Vec<UncommittedSong>) -> (r: [u8; 32])
    ensures
        r@ == xor_all(song_digests(songs@)),
{
    let mut output: [u8; 32] = [0u8; 32];
    let mut i: usize = 0;
    proof {
        assert(output@ =~= zero_digest());
        assert(song_digests(songs@).take(0) =~= Seq::<Seq<u8>>::empty());
    }
    while i < songs.len()
        invariant
            i <= songs@.len(),
            output@ == xor_all(song_digests(songs@).take(i as int)),
        decreases songs@.len() - i,
    {
        output = combine(&output, &songs[i].hash);
        proof {
            assert(song_digests(songs@).take(i + 1).drop_last() =~= song_digests(songs@).take(i as int));
        }
        i = i + 1;
    }
    proof {
        assert(song_digests(songs@).take(i as int) =~= song_digests(songs@));
    }
    output
}


/// Combining two digests does not depend on their order, and a digest
/// combined with itself gives zeros.
pub proof fn lemma_xor_bytes_laws(a: Seq<u8>, b: Seq<u8>)
    requires
        a.len() == b.len(),
    ensures
        xor_bytes(a, b) == xor_bytes(b, a),
        xor_bytes(a, a) == Seq::new(a.len(), |i: int| 0u8),
{
    assert forall|i: int| 0 <= i < a.len() implies xor_bytes(a, b)[i] == xor_bytes(b, a)[i] && xor_bytes(a, a)[i] == 0u8 by {
        let (x, y) = (a[i], b[i]);
        assert(x ^ y == y ^ x) by (bit_vector);
        assert(x ^ x == 0u8) by (bit_vector);
    }
    assert(xor_bytes(a, b) =~= xor_bytes(b, a));
    assert(xor_bytes(a, a) =~= Seq::new(a.len(), |i: int| 0u8));
}

/// The prime of 64-bit FNV-1a hashing.
pub const FNV_PRIME: u64 = 0x100000001b3;

/// The offset basis of 64-bit FNV-1a hashing.
pub const FNV_OFFSET: u64 = 0xcbf29ce484222325;

/// 64-bit FNV-1a from a starting value over the bytes.
pub open spec fn fnv(seed: u64, s: Seq<u8>) -> u64
    decreases s.len(),
{
    if s.len() == 0 {
        seed
    } else {
        vstd::wrapping::u64_specs::wrapping_mul(fnv(seed, s.drop_last()) ^ (s.last() as u64), FNV_PRIME)
    }
}

/// The digest of a file's contents: four FNV-1a lanes started from the
/// offset basis with the lane's number mixed in, each written in
/// little-endian order.
pub open spec fn content_digest(s: Seq<u8>) -> Seq<u8> {
    Seq::new(32, |j: int| (fnv(FNV_OFFSET ^ ((j / 8) as u64), s) >> (8 * (j % 8)) as u64) as u8)
}

/// Computes the digest of a file's contents.
pub fn digest_bytes(bytes: &[u8]) -> (d: [u8; 32])
    ensures
        d@ == content_digest(bytes@),
{
    let mut lanes: [u64; 4] = [FNV_OFFSET, FNV_OFFSET ^ 1, FNV_OFFSET ^ 2, FNV_OFFSET ^ 3];
    let mut i: usize = 0;
    proof {
        assert(bytes@.take(0) =~= Seq::<u8>::empty());
        assert(FNV_OFFSET ^ 0u64 == FNV_OFFSET) by (bit_vector);
        assert(lanes@[0] == FNV_OFFSET ^ (0int as u64));
    }
    while i < bytes.len()
        invariant
            i <= bytes@.len(),
            lanes@.len() == 4,
            forall|k: int| 0 <= k < 4 ==> lanes@[k] == fnv(FNV_OFFSET ^ (k as u64), bytes@.take(i as int)),
        decreases bytes@.len() - i,
    {
        let b: u64 = bytes[i] as u64;
        let mut k: usize = 0;
        proof {
            assert(bytes@.take(i + 1).drop_last() =~= bytes@.take(i as int));
            assert(bytes@.take(i + 1).last() == bytes@[i as int]);
        }
        while k < 4
            invariant
                i < bytes@.len(),
                k <= 4,
                lanes@.len() == 4,
                b == bytes@[i as int] as u64,
                bytes@.take(i + 1).drop_last() == bytes@.take(i as int),
                bytes@.take(i + 1).last() == bytes@[i as int],
                forall|m: int| 0 <= m < k ==> lanes@[m] == fnv(FNV_OFFSET ^ (m as u64), bytes@.take(i + 1)),
                forall|m: int| k <= m < 4 ==> lanes@[m] == fnv(FNV_OFFSET ^ (m as u64), bytes@.take(i as int)),
            decreases 4 - k,
        {
            lanes[k] = (lanes[k] ^ b).wrapping_mul(FNV_PRIME);
            k = k + 1;
        }
        i = i + 1;
    }
    proof {
        assert(bytes@.take(i as int) =~= bytes@);
    }
    let mut d: [u8; 32] = [0u8; 32];
    let mut j: usize = 0;
    while j < 32
        invariant
            j <= 32,
            d@.len() == 32,
            lanes@.len() == 4,
            forall|k: int| 0 <= k < 4 ==> lanes@[k] == fnv(FNV_OFFSET ^ (k as u64), bytes@),
            forall|m: int| 0 <= m < j ==> d@[m] == content_digest(bytes@)[m],
        decreases 32 - j,
    {
        let shift: u64 = 8 * ((j % 8) as u64);
        d[j] = #[verifier::truncate] ((lanes[j / 8] >> shift) as u8);
        j = j + 1;
    }
    proof {
        assert(d@ =~= content_digest(bytes@));
    }
    d
}

/// All digests are 32 bytes long.
pub open spec fn all_digests(ds: Seq<Seq<u8>>) -> bool {
    forall|i: int| 0 <= i < ds.len() ==> (#[trigger] ds[i]).len() == 32
}

proof fn lemma_xor_all_len(ds: Seq<Seq<u8>>)
    requires
        all_digests(ds),
    ensures
        xor_all(ds).len() == 32,
    decreases ds.len(),
{
    if ds.len() > 0 {
        lemma_xor_all_len(ds.drop_last());
    }
}

/// Combining with two digests gives the same result in either order.
pub proof fn lemma_xor_swap(a: Seq<u8>, b: Seq<u8>, c: Seq<u8>)
    requires
        a.len() == b.len(),
        a.len() == c.len(),
    ensures
        xor_bytes(xor_bytes(a, b), c) == xor_bytes(xor_bytes(a, c), b),
{
    assert forall|i: int| 0 <= i < a.len() implies xor_bytes(xor_bytes(a, b), c)[i] == xor_bytes(
        xor_bytes(a, c),
        b,
    )[i] by {
        let (x, y, z) = (a[i], b[i], c[i]);
        assert((x ^ y) ^ z == (x ^ z) ^ y) by (bit_vector);
    }
    assert(xor_bytes(xor_bytes(a, b), c) =~= xor_bytes(xor_bytes(a, c), b));
}

/// The combination of all digests is the combination of the others with any
/// one of them.
proof fn lemma_xor_all_extract(ds: Seq<Seq<u8>>, j: int)
    requires
        all_digests(ds),
        0 <= j < ds.len(),
    ensures
        xor_all(ds) == xor_bytes(xor_all(ds.remove(j)), ds[j]),
    decreases ds.len(),
{
    if j == ds.len() - 1 {
        assert(ds.remove(j) =~= ds.drop_last());
    } else {
        let front = ds.drop_last();
        lemma_xor_all_extract(front, j);
        assert(ds.remove(j) =~= front.remove(j).push(ds.last()));
        assert(ds.remove(j).drop_last() =~= front.remove(j));
        lemma_xor_all_len(front.remove(j));
        lemma_xor_swap(xor_all(front.remove(j)), ds[j], ds.last());
    }
}

/// An album's digest does not depend on the order of its songs: any two
/// lists of song digests that hold the same digests, each as often, combine
/// to the same digest.
pub proof fn lemma_digest_order_independent(s1: Seq<Seq<u8>>, s2: Seq<Seq<u8>>)
    requires
        all_digests(s1),
        all_digests(s2),
        s1.to_multiset() == s2.to_multiset(),
    ensures
        xor_all(s1) == xor_all(s2),
    decreases s1.len(),
{
    broadcast use vstd::seq_lib::group_to_multiset_ensures;
    broadcast use vstd::multiset::group_multiset_axioms;

    assert(s1.to_multiset().len() == s1.len());
    assert(s2.to_multiset().len() == s2.len());
    if s1.len() == 0 {
        assert(s2.len() == 0);
        assert(s2 =~= s1);
    } else {
        let x = s1.last();
        assert(s1 =~= s1.drop_last().push(x));
        assert(s1.to_multiset().count(x) > 0);
        assert(s2.contains(x));
        let j: int = s2.index_of(x);
        assert(s2.remove(j).to_multiset() =~= s2.to_multiset().remove(x));
        assert(s1.drop_last().to_multiset() =~= s1.to_multiset().remove(x));
        lemma_digest_order_independent(s1.drop_last(), s2.remove(j));
        lemma_xor_all_extract(s2, j);
    }
}

/// A digest combined in twice cancels out.
pub proof fn lemma_digest_twice_cancels(ds: Seq<Seq<u8>>, d: Seq<u8>)
    requires
        all_digests(ds),
        d.len() == 32,
    ensures
        xor_all(ds.push(d).push(d)) == xor_all(ds),
{
    let a = xor_all(ds);
    lemma_xor_all_len(ds);
    assert(ds.push(d).push(d).drop_last() =~= ds.push(d));
    assert(ds.push(d).drop_last() =~= ds);
    assert(xor_all(ds.push(d)) == xor_bytes(a, d));
    assert(xor_all(ds.push(d).push(d)) == xor_bytes(xor_all(ds.push(d)), d));
    assert forall|i: int| 0 <= i < 32 implies xor_bytes(xor_bytes(a, d), d)[i] == a[i] by {
        let (x, y) = (a[i], d[i]);
        assert((x ^ y) ^ y == x) by (bit_vector);
    }
    assert(xor_bytes(xor_bytes(a, d), d) =~= a);
}

} // verus!
