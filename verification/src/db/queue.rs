//! Making a queue from a list of tracks: its order, the positions stored for
//! its tracks, and the fingerprint by which an equal queue is found again.

use crate::db::operations::DbOperations;
use sha2::Digest;
use vstd::prelude::*;
use vstd::relations::{sorted_by, total_ordering};

verus! {

/// The SHA-256 digest of `data`, written as lower-case hexadecimal digits.
pub uninterp spec fn sha256_hex_of(data: Seq<u8>) -> Seq<char>;

/// The order of track identifiers.
pub open spec fn id_order() -> spec_fn(i64, i64) -> bool {
    |a: i64, b: i64| a <= b
}

/// The identifiers in ascending order.
pub open spec fn ascending(ids: Seq<i64>) -> Seq<i64> {
    ids.sort_by(id_order())
}

/// The eight bytes of an identifier in two's complement, least significant first.
pub open spec fn le_bytes(id: i64) -> Seq<u8> {
    let unsigned: int = if id >= 0 {
        id as int
    } else {
        id + 0x1_0000_0000_0000_0000
    };
    Seq::new(8, |k: int| ((unsigned / pow256(k)) % 256) as u8)
}

/// `256` to the power `k`, for the eight places of an identifier.
pub open spec fn pow256(k: int) -> int
    decreases k,
{
    if k <= 0 {
        1
    } else {
        256 * pow256(k - 1)
    }
}

/// The bytes of every identifier, one after the other.
pub open spec fn id_bytes(ids: Seq<i64>) -> Seq<u8>
    decreases ids.len(),
{
    if ids.len() == 0 {
        Seq::empty()
    } else {
        id_bytes(ids.drop_last()) + le_bytes(ids.last())
    }
}

/// The fingerprint of a set of tracks.
pub open spec fn track_hash_of(ids: Seq<i64>) -> Seq<char> {
    sha256_hex_of(id_bytes(ascending(ids)))
}

/// The tracks from `clicked` to the end, then those before it.
pub open spec fn rotated(ids: Seq<i64>, clicked: int) -> Seq<i64> {
    ids.subrange(clicked, ids.len() as int) + ids.subrange(0, clicked)
}

/// Whether `p` is the first place at which `ids` holds `id`.
pub open spec fn is_first_place(ids: Seq<i64>, id: i64, p: int) -> bool {
    &&& 0 <= p < ids.len()
    &&& ids[p] == id
    &&& forall|k: int| 0 <= k < p ==> ids[k] != id
}

/// `Sha256::digest` of the `sha2` crate, formatted as the digest's
/// lower-case hexadecimal digits.
#[verifier::external_body]
fn sha256_hex(data: &[u8]) -> (hex: String)
    ensures
        hex@ == sha256_hex_of(data@),
{
    format!("{:x}", sha2::Sha256::digest(data))
}

/// The order of identifiers is a total order.
proof fn id_order_is_total()
    ensures
        total_ordering(id_order()),
{
    let leq = id_order();
    assert(vstd::relations::reflexive(leq));
    assert(vstd::relations::antisymmetric(leq));
    assert(vstd::relations::transitive(leq));
    assert(vstd::relations::strongly_connected(leq));
}

/// Appends the eight bytes of `id` to `bytes`.
fn push_le_bytes(bytes: &mut Vec<u8>, id: i64)
    ensures
        final(bytes)@ == old(bytes)@ + le_bytes(id),
{
    let unsigned: u64 = if id >= 0 {
        id as u64
    } else {
        ((id as i128) + 0x1_0000_0000_0000_0000) as u64
    };
    let ghost start = bytes@;
    let ghost whole: int = unsigned as int;
    let mut rest: u64 = unsigned;
    let mut k: usize = 0;
    while k < 8
        invariant
            k <= 8,
            rest == whole / pow256(k as int),
            pow256(k as int) > 0,
            0 <= whole,
            bytes@.len() == start.len() + k,
            forall|j: int| 0 <= j < start.len() ==> bytes@[j] == start[j],
            forall|j: int|
                0 <= j < k ==> bytes@[start.len() + j] == ((whole / pow256(j)) % 256) as u8,
        decreases 8 - k,
    {
        let byte: u8 = (rest % 256) as u8;
        bytes.push(byte);
        proof {
            let p = pow256(k as int);
            assert(pow256(k + 1) == 256 * p);
            vstd::arithmetic::div_mod::lemma_div_denominator(whole, p, 256);
            assert(p * 256 == 256 * p) by (nonlinear_arith);
            assert(256 * p > 0) by (nonlinear_arith)
                requires
                    p > 0,
            ;
        }
        rest = rest / 256;
        k = k + 1;
    }
    proof {
        assert(bytes@ =~= start + le_bytes(id));
    }
}

impl DbOperations {
    /// The identifiers in ascending order.
    pub fn sorted_ids(track_ids: &[i64]) -> (sorted: Vec<i64>)
        ensures
            sorted@ == ascending(track_ids@),
            sorted_by(sorted@, id_order()),
            sorted@.to_multiset() == track_ids@.to_multiset(),
    {
        broadcast use vstd::seq_lib::group_to_multiset_ensures;

        let leq = Ghost(id_order());
        let mut sorted: Vec<i64> = Vec::new();
        let mut i: usize = 0;
        proof {
            assert(track_ids@.subrange(0, 0) =~= sorted@);
        }
        while i < track_ids.len()
            invariant
                i <= track_ids@.len(),
                leq@ == id_order(),
                sorted_by(sorted@, leq@),
                sorted@.to_multiset() == track_ids@.subrange(0, i as int).to_multiset(),
            decreases track_ids@.len() - i,
        {
            let id = track_ids[i];
            let mut at: usize = 0;
            while at < sorted.len() && sorted[at] <= id
                invariant
                    at <= sorted@.len(),
                    forall|k: int| 0 <= k < at ==> sorted@[k] <= id,
                decreases sorted@.len() - at,
            {
                at = at + 1;
            }
            let ghost before = sorted@;
            sorted.insert(at, id);
            proof {
                assert(track_ids@.subrange(0, i + 1) =~= track_ids@.subrange(0, i as int).push(id));
                vstd::seq_lib::to_multiset_insert(before, at as int, id);
                vstd::seq_lib::to_multiset_build(track_ids@.subrange(0, i as int), id);
                assert forall|a: int, b: int| 0 <= a < b < sorted@.len() implies #[trigger] (leq@)(
                    sorted@[a],
                    sorted@[b],
                ) by {
                    if b < at {
                        assert((leq@)(before[a], before[b]));
                    } else if b == at {
                    } else if a < at {
                        assert((leq@)(before[a], before[b - 1]));
                    } else if a == at {
                        assert((leq@)(before[at as int], before[b - 1]) || b - 1 == at);
                    } else {
                        assert((leq@)(before[a - 1], before[b - 1]));
                    }
                }
            }
            i = i + 1;
        }
        proof {
            assert(track_ids@.subrange(0, track_ids@.len() as int) =~= track_ids@);
            id_order_is_total();
            track_ids@.lemma_sort_by_ensures(id_order());
            vstd::seq_lib::lemma_sorted_unique(sorted@, ascending(track_ids@), id_order());
        }
        sorted
    }

    /// The fingerprint of a set of tracks: the digest of their identifiers in
    /// ascending order.  Two lists of the same tracks have the same
    /// fingerprint, whatever their order.
    pub fn calculate_track_hash(track_ids: &[i64]) -> (hash: String)
        ensures
            hash@ == track_hash_of(track_ids@),
    {
        let sorted = Self::sorted_ids(track_ids);
        let mut bytes: Vec<u8> = Vec::new();
        let mut i: usize = 0;
        proof {
            assert(sorted@.subrange(0, 0) =~= Seq::<i64>::empty());
        }
        while i < sorted.len()
            invariant
                i <= sorted@.len(),
                bytes@ == id_bytes(sorted@.subrange(0, i as int)),
            decreases sorted@.len() - i,
        {
            proof {
                let upto = sorted@.subrange(0, i + 1);
                assert(upto.drop_last() =~= sorted@.subrange(0, i as int));
                assert(upto.last() == sorted@[i as int]);
            }
            push_le_bytes(&mut bytes, sorted[i]);
            i = i + 1;
        }
        proof {
            assert(sorted@.subrange(0, sorted@.len() as int) =~= sorted@);
        }
        sha256_hex(bytes.as_slice())
    }

    /// The order in which a queue plays a list of tracks of which one was
    /// clicked: the clicked track first, then those after it, then those
    /// before it.
    pub fn reorder_from_clicked(track_ids: &[i64], clicked_index: usize) -> (reordered: Vec<i64>)
        requires
            clicked_index < track_ids@.len(),
        ensures
            reordered@ == rotated(track_ids@, clicked_index as int),
            reordered@.len() == track_ids@.len(),
            reordered@[0] == track_ids@[clicked_index as int],
    {
        let mut reordered: Vec<i64> = Vec::new();
        let mut i: usize = clicked_index;
        while i < track_ids.len()
            invariant
                clicked_index <= i <= track_ids@.len(),
                reordered@ == track_ids@.subrange(clicked_index as int, i as int),
            decreases track_ids@.len() - i,
        {
            reordered.push(track_ids[i]);
            proof {
                assert(reordered@ =~= track_ids@.subrange(clicked_index as int, i + 1));
            }
            i = i + 1;
        }
        let mut j: usize = 0;
        while j < clicked_index
            invariant
                j <= clicked_index < track_ids@.len(),
                reordered@ == track_ids@.subrange(clicked_index as int, track_ids@.len() as int)
                    + track_ids@.subrange(0, j as int),
            decreases clicked_index - j,
        {
            reordered.push(track_ids[j]);
            proof {
                assert(reordered@ =~= track_ids@.subrange(
                    clicked_index as int,
                    track_ids@.len() as int,
                ) + track_ids@.subrange(0, j + 1));
            }
            j = j + 1;
        }
        reordered
    }

    /// The position stored for each track of a queue: the first place at
    /// which the list holds that track.
    pub fn queue_positions(track_ids: &[i64]) -> (positions: Vec<usize>)
        ensures
            positions@.len() == track_ids@.len(),
            forall|i: int|
                0 <= i < track_ids@.len() ==> is_first_place(
                    track_ids@,
                    track_ids@[i],
                    #[trigger] positions@[i] as int,
                ),
    {
        let mut positions: Vec<usize> = Vec::new();
        let mut i: usize = 0;
        while i < track_ids.len()
            invariant
                i <= track_ids@.len(),
                positions@.len() == i,
                forall|k: int|
                    0 <= k < i ==> is_first_place(
                        track_ids@,
                        track_ids@[k],
                        #[trigger] positions@[k] as int,
                    ),
            decreases track_ids@.len() - i,
        {
            let id = track_ids[i];
            let mut p: usize = 0;
            while track_ids[p] != id
                invariant
                    p <= i < track_ids@.len(),
                    id == track_ids@[i as int],
                    forall|k: int| 0 <= k < p ==> track_ids@[k] != id,
                decreases i - p,
            {
                p = p + 1;
            }
            positions.push(p);
            i = i + 1;
        }
        positions
    }
}

/// Two lists of the same tracks, in whatever order, have the same fingerprint.
pub proof fn track_hash_ignores_order(first: Seq<i64>, second: Seq<i64>)
    requires
        first.to_multiset() == second.to_multiset(),
    ensures
        ascending(first) == ascending(second),
        track_hash_of(first) == track_hash_of(second),
{
    id_order_is_total();
    first.lemma_sort_by_ensures(id_order());
    second.lemma_sort_by_ensures(id_order());
    vstd::seq_lib::lemma_sorted_unique(ascending(first), ascending(second), id_order());
}

/// Starting a queue at the clicked track changes the order of its tracks and
/// nothing else, so the queue keeps its fingerprint.
pub proof fn rotation_keeps_track_hash(ids: Seq<i64>, clicked: int)
    requires
        0 <= clicked < ids.len(),
    ensures
        rotated(ids, clicked).to_multiset() == ids.to_multiset(),
        track_hash_of(rotated(ids, clicked)) == track_hash_of(ids),
{
    let front = ids.subrange(0, clicked);
    let back = ids.subrange(clicked, ids.len() as int);
    assert(ids =~= front + back);
    vstd::seq_lib::lemma_seq_union_to_multiset_commutative(front, back);
    track_hash_ignores_order(rotated(ids, clicked), ids);
}

/// In a list without repeated tracks every track is stored at its own place.
pub proof fn positions_of_distinct_tracks(ids: Seq<i64>, i: int, p: int)
    requires
        0 <= i < ids.len(),
        forall|a: int, b: int| 0 <= a < b < ids.len() ==> ids[a] != ids[b],
        is_first_place(ids, ids[i], p),
    ensures
        p == i,
{
    if p < i {
        assert(ids[p] != ids[i]);
    } else if i < p {
        assert(ids[i] != ids[p]);
    }
}

} // verus!
