//! What holds of a shuffled queue: of every queue that its slots never
//! collide, and of a queue whose anchor is one of its tracks that shuffling
//! permutes it.

use crate::db::operations::{
    find_slot, origin_of_slot, probe_free, rust_rem, shuffle_state, shuffle_step, shuffled_position,
    slot_origin, stepped_index,
};
use vstd::prelude::*;
use vstd::set_lib::set_int_range;

verus! {

/// The position `i` steps after `p`, wrapping at `len`.
spec fn wrapped(p: int, i: int, len: int) -> int {
    (p + i) % len
}

/// Number of slots before `k` that are not the anchor's.
spec fn filled(k: int, anchor: int) -> int {
    if anchor < k {
        k - 1
    } else {
        k
    }
}

/// What holds once the slots before `k` are filled: each has been given a
/// position of the queue that no other slot and not the anchor holds.
spec fn state_holds(k: int, seed: int, len: int, anchor: int) -> bool {
    let (cur, used) = shuffle_state(k, seed, len, anchor);
    &&& 0 <= cur < len
    &&& used.finite()
    &&& used.len() == 1 + filled(k, anchor)
    &&& used.contains(anchor)
    &&& forall|x: int| used.contains(x) ==> 0 <= x < len
    &&& forall|x: int|
        used.contains(x) ==> x == anchor || exists|j: int|
            0 <= j < k && j != anchor && #[trigger] slot_origin(j, seed, len, anchor) == x
    &&& forall|j: int|
        0 <= j < k && j != anchor ==> used.contains(#[trigger] slot_origin(j, seed, len, anchor))
            && slot_origin(j, seed, len, anchor) != anchor
    &&& forall|i: int, j: int|
        0 <= i < j < k && i != anchor && j != anchor ==> #[trigger] slot_origin(
            i,
            seed,
            len,
            anchor,
        ) != #[trigger] slot_origin(j, seed, len, anchor)
}

/// The stride lies strictly between zero and the queue's length.
proof fn step_in_range(seed: int, len: int)
    requires
        len >= 2,
    ensures
        1 <= shuffle_step(seed, len) < len,
{
    let magnitude = if seed >= 0 {
        seed
    } else {
        -seed
    };
    vstd::arithmetic::div_mod::lemma_mod_pos_bound(magnitude, len);
}

/// A probe ends inside the queue, and where it ends on a taken position it
/// has found every position it tried taken.
proof fn probe_tries_in_turn(p: int, used: Set<int>, len: int, limit: nat)
    requires
        len >= 1,
        0 <= p < len,
    ensures
        0 <= probe_free(p, used, len, limit) < len,
        used.contains(probe_free(p, used, len, limit)) ==> forall|i: int|
            0 <= i < limit ==> used.contains(#[trigger] wrapped(p, i, len)),
    decreases limit,
{
    if limit == 0 || !used.contains(p) {
    } else {
        let q = rust_rem(p + 1, len);
        vstd::arithmetic::div_mod::lemma_mod_pos_bound(p + 1, len);
        probe_tries_in_turn(q, used, len, (limit - 1) as nat);
        let r = probe_free(q, used, len, (limit - 1) as nat);
        assert(r == probe_free(p, used, len, limit));
        if used.contains(r) {
            assert forall|i: int| 0 <= i < limit implies used.contains(
                #[trigger] wrapped(p, i, len),
            ) by {
                if i == 0 {
                    vstd::arithmetic::div_mod::lemma_small_mod(p as nat, len as nat);
                } else {
                    vstd::arithmetic::div_mod::lemma_add_mod_noop_right(i - 1, p + 1, len);
                    assert(wrapped(q, i - 1, len) == wrapped(p, i, len));
                }
            }
        }
    }
}

/// Going once round the queue from any position passes every position.
proof fn round_trip_covers(p: int, used: Set<int>, len: int)
    requires
        len >= 1,
        0 <= p < len,
        forall|i: int| 0 <= i < len ==> used.contains(#[trigger] wrapped(p, i, len)),
    ensures
        forall|x: int| 0 <= x < len ==> used.contains(x),
{
    assert forall|x: int| 0 <= x < len implies used.contains(x) by {
        let i = (x - p + len) % len;
        vstd::arithmetic::div_mod::lemma_mod_pos_bound(x - p + len, len);
        vstd::arithmetic::div_mod::lemma_add_mod_noop_right(p, x - p + len, len);
        vstd::arithmetic::div_mod::lemma_mod_add_multiples_vanish(x, len);
        vstd::arithmetic::div_mod::lemma_small_mod(x as nat, len as nat);
        assert(wrapped(p, i, len) == x);
    }
}

/// While fewer positions are taken than the queue has, a probe finds a free one.
proof fn probe_finds_free(p: int, used: Set<int>, len: int)
    requires
        len >= 1,
        0 <= p < len,
        used.finite(),
        used.len() < len,
    ensures
        0 <= probe_free(p, used, len, (2 * len) as nat) < len,
        !used.contains(probe_free(p, used, len, (2 * len) as nat)),
{
    probe_tries_in_turn(p, used, len, (2 * len) as nat);
    if used.contains(probe_free(p, used, len, (2 * len) as nat)) {
        assert forall|i: int| 0 <= i < len implies used.contains(#[trigger] wrapped(p, i, len)) by {}
        round_trip_covers(p, used, len);
        vstd::set_lib::lemma_int_range(0, len);
        assert(set_int_range(0, len).subset_of(used));
        vstd::set_lib::lemma_len_subset(set_int_range(0, len), used);
    }
}

/// `state_holds` after every number of slots.
proof fn state_holds_throughout(k: int, seed: int, len: int, anchor: int)
    requires
        len >= 2,
        0 <= anchor < len,
        0 <= k <= len,
    ensures
        state_holds(k, seed, len, anchor),
    decreases k,
{
    if k == 0 {
        assert(set![anchor].len() == 1) by {
            assert(set![anchor] =~= Set::<int>::empty().insert(anchor));
        }
    } else {
        state_holds_throughout(k - 1, seed, len, anchor);
        let (cur, used) = shuffle_state(k - 1, seed, len, anchor);
        if k - 1 == anchor {
            assert(shuffle_state(k, seed, len, anchor) == (cur, used));
        } else {
            step_in_range(seed, len);
            let step = shuffle_step(seed, len);
            let start = rust_rem(cur + step, len);
            vstd::arithmetic::div_mod::lemma_mod_pos_bound(cur + step, len);
            probe_finds_free(start, used, len);
            let p = probe_free(start, used, len, (2 * len) as nat);
            assert(shuffle_state(k, seed, len, anchor) == (p, used.insert(p)));
            assert(slot_origin(k - 1, seed, len, anchor) == p);
            let grown = used.insert(p);
            assert forall|x: int| grown.contains(x) implies x == anchor || exists|j: int|
                0 <= j < k && j != anchor && #[trigger] slot_origin(j, seed, len, anchor) == x by {
                if x == p {
                    assert(slot_origin(k - 1, seed, len, anchor) == x);
                } else if x != anchor {
                    let j = choose|j: int|
                        0 <= j < k - 1 && j != anchor && #[trigger] slot_origin(j, seed, len, anchor)
                            == x;
                    assert(0 <= j < k && slot_origin(j, seed, len, anchor) == x);
                }
            }
            assert forall|i: int, j: int|
                0 <= i < j < k && i != anchor && j != anchor implies #[trigger] slot_origin(
                i,
                seed,
                len,
                anchor,
            ) != #[trigger] slot_origin(j, seed, len, anchor) by {
                if j == k - 1 {
                    assert(used.contains(slot_origin(i, seed, len, anchor)));
                }
            }
        }
    }
}

/// `find_slot` finds the one slot that holds a position.
proof fn find_slot_finds(from: int, slot: int, original: int, seed: int, len: int, anchor: int)
    requires
        0 <= from <= slot < len,
        slot != anchor,
        slot_origin(slot, seed, len, anchor) == original,
        forall|j: int|
            from <= j < slot && j != anchor ==> #[trigger] slot_origin(j, seed, len, anchor)
                != original,
    ensures
        find_slot(from, original, seed, len, anchor) == slot,
    decreases slot - from,
{
    if from < slot {
        find_slot_finds(from + 1, slot, original, seed, len, anchor);
    }
}

/// Stepping forward through a queue and stepping back undo each other, and
/// neither leaves the queue.
pub proof fn stepping_is_invertible(current: int, seed: int, len: int)
    requires
        len >= 2,
        0 <= current < len,
    ensures
        0 <= stepped_index(current, seed, len, 1) < len,
        0 <= stepped_index(current, seed, len, -1) < len,
        stepped_index(stepped_index(current, seed, len, 1), seed, len, -1) == current,
        stepped_index(stepped_index(current, seed, len, -1), seed, len, 1) == current,
{
    step_in_range(seed, len);
    let step = shuffle_step(seed, len);
    let forward = (current + step) % len;
    let back = (current - step + len) % len;
    if current + step < len {
        vstd::arithmetic::div_mod::lemma_small_mod((current + step) as nat, len as nat);
    } else {
        vstd::arithmetic::div_mod::lemma_mod_add_multiples_vanish(current + step - len, len);
        vstd::arithmetic::div_mod::lemma_small_mod((current + step - len) as nat, len as nat);
    }
    if current - step >= 0 {
        vstd::arithmetic::div_mod::lemma_mod_add_multiples_vanish(current - step, len);
        vstd::arithmetic::div_mod::lemma_small_mod((current - step) as nat, len as nat);
    } else {
        vstd::arithmetic::div_mod::lemma_small_mod((current - step + len) as nat, len as nat);
    }
    assert(forward == if current + step < len {
        current + step
    } else {
        current + step - len
    });
    assert(back == if current - step >= 0 {
        current - step
    } else {
        current - step + len
    });
    if forward - step >= 0 {
        vstd::arithmetic::div_mod::lemma_mod_add_multiples_vanish(forward - step, len);
        vstd::arithmetic::div_mod::lemma_small_mod((forward - step) as nat, len as nat);
    } else {
        vstd::arithmetic::div_mod::lemma_small_mod((forward - step + len) as nat, len as nat);
    }
    if back + step < len {
        vstd::arithmetic::div_mod::lemma_small_mod((back + step) as nat, len as nat);
    } else {
        vstd::arithmetic::div_mod::lemma_mod_add_multiples_vanish(back + step - len, len);
        vstd::arithmetic::div_mod::lemma_small_mod((back + step - len) as nat, len as nat);
    }
}

/// A shuffled queue plays every track once: each slot holds a position of
/// the queue, and no two slots hold the same.  The anchor keeps its slot.
pub proof fn shuffle_is_a_permutation(seed: int, len: int, anchor: int)
    requires
        len >= 2,
        0 <= anchor < len,
    ensures
        slot_origin(anchor, seed, len, anchor) == anchor,
        forall|slot: int|
            0 <= slot < len ==> 0 <= #[trigger] slot_origin(slot, seed, len, anchor) < len,
        forall|a: int, b: int|
            0 <= a < b < len ==> #[trigger] slot_origin(a, seed, len, anchor)
                != #[trigger] slot_origin(b, seed, len, anchor),
{
    state_holds_throughout(len, seed, len, anchor);
    let used = shuffle_state(len, seed, len, anchor).1;
    assert forall|slot: int| 0 <= slot < len implies 0 <= #[trigger] slot_origin(
        slot,
        seed,
        len,
        anchor,
    ) < len by {
        if slot != anchor {
            assert(used.contains(slot_origin(slot, seed, len, anchor)));
        }
    }
    assert forall|a: int, b: int| 0 <= a < b < len implies #[trigger] slot_origin(
        a,
        seed,
        len,
        anchor,
    ) != #[trigger] slot_origin(b, seed, len, anchor) by {
        if a == anchor {
            assert(used.contains(slot_origin(b, seed, len, anchor)));
        } else if b == anchor {
            assert(used.contains(slot_origin(a, seed, len, anchor)));
        }
    }
}

/// Looking up the slot of the track that plays in a slot gives that slot back.
pub proof fn position_inverts_origin(slot: int, seed: int, len: int, anchor: int)
    requires
        len >= 2,
        0 <= anchor < len,
        0 <= slot < len,
    ensures
        origin_of_slot(slot, seed, len, anchor) is Some,
        shuffled_position(origin_of_slot(slot, seed, len, anchor)->Some_0, seed, len, anchor)
            == slot,
{
    if seed != 1 && slot != anchor {
        shuffle_is_a_permutation(seed, len, anchor);
        let original = slot_origin(slot, seed, len, anchor);
        assert(original != anchor) by {
            assert(slot_origin(anchor, seed, len, anchor) == anchor);
        }
        find_slot_finds(0, slot, original, seed, len, anchor);
    }
}

/// Looking up the track that plays in the slot of a track gives that track
/// back, and the slot lies in the queue.
pub proof fn origin_inverts_position(original: int, seed: int, len: int, anchor: int)
    requires
        len >= 2,
        0 <= anchor < len,
        0 <= original < len,
    ensures
        0 <= shuffled_position(original, seed, len, anchor) < len,
        origin_of_slot(shuffled_position(original, seed, len, anchor), seed, len, anchor) == Some(
            original,
        ),
{
    if seed != 1 && original != anchor {
        state_holds_throughout(len, seed, len, anchor);
        shuffle_is_a_permutation(seed, len, anchor);
        let used = shuffle_state(len, seed, len, anchor).1;
        vstd::set_lib::lemma_int_range(0, len);
        assert(used.subset_of(set_int_range(0, len)));
        vstd::set_lib::lemma_subset_equality(used, set_int_range(0, len));
        assert(set_int_range(0, len).contains(original));
        assert(used.contains(original));
        let slot = choose|j: int|
            0 <= j < len && j != anchor && #[trigger] slot_origin(j, seed, len, anchor) == original;
        find_slot_finds(0, slot, original, seed, len, anchor);
    }
}

/// Number of slots before `k` that are not the anchor's, wherever the anchor is.
spec fn filled_before(k: int, anchor: int) -> int {
    if 0 <= anchor < k {
        k - 1
    } else {
        k
    }
}

/// What holds once the slots before `k` are filled, wherever the anchor is:
/// the positions handed out differ from one another and from the anchor, and
/// fewer of the queue's positions are taken than slots are filled.
spec fn state_is_sound(k: int, seed: int, len: int, anchor: int) -> bool {
    let (cur, used) = shuffle_state(k, seed, len, anchor);
    &&& cur == anchor || -len < cur < len
    &&& used.finite()
    &&& used.contains(anchor)
    &&& used.intersect(set_int_range(0, len)).len() <= filled_before(k, anchor) + if 0 <= anchor
        < len {
        1int
    } else {
        0int
    }
    &&& forall|j: int|
        0 <= j < k && j != anchor ==> used.contains(#[trigger] slot_origin(j, seed, len, anchor))
            && slot_origin(j, seed, len, anchor) != anchor && -len < slot_origin(
            j,
            seed,
            len,
            anchor,
        ) < len
    &&& forall|i: int, j: int|
        0 <= i < j < k && i != anchor && j != anchor ==> #[trigger] slot_origin(
            i,
            seed,
            len,
            anchor,
        ) != #[trigger] slot_origin(j, seed, len, anchor)
}

/// A truncated remainder lies within one length of zero on either side.
proof fn remainder_in_range(a: int, len: int)
    requires
        len >= 1,
    ensures
        -len < rust_rem(a, len) < len,
        a >= 0 ==> rust_rem(a, len) >= 0,
{
    if a >= 0 {
        vstd::arithmetic::div_mod::lemma_mod_pos_bound(a, len);
    } else {
        vstd::arithmetic::div_mod::lemma_mod_pos_bound(-a, len);
    }
}

/// A probe that starts inside the queue looks at positions of the queue only.
proof fn probe_sees_queue_only(p: int, used: Set<int>, len: int, limit: nat)
    requires
        len >= 1,
        0 <= p < len,
    ensures
        probe_free(p, used, len, limit) == probe_free(
            p,
            used.intersect(set_int_range(0, len)),
            len,
            limit,
        ),
    decreases limit,
{
    let inside = used.intersect(set_int_range(0, len));
    assert(used.contains(p) == inside.contains(p));
    if limit > 0 && used.contains(p) {
        remainder_in_range(p + 1, len);
        probe_sees_queue_only(rust_rem(p + 1, len), used, len, (limit - 1) as nat);
    }
}

/// A probe ends on a free position, given enough probes to climb to the
/// start of the queue and go once round it, while fewer positions of the
/// queue are taken than it has.
proof fn probe_ends_free(p: int, used: Set<int>, len: int, limit: nat)
    requires
        len >= 1,
        -len < p < len,
        limit >= len + if p < 0 {
            -p
        } else {
            0
        },
        used.finite(),
        used.intersect(set_int_range(0, len)).len() < len,
    ensures
        -len < probe_free(p, used, len, limit) < len,
        !used.contains(probe_free(p, used, len, limit)),
    decreases limit,
{
    if p >= 0 {
        let inside = used.intersect(set_int_range(0, len));
        vstd::set::axiom_set_intersect_finite(used, set_int_range(0, len));
        probe_sees_queue_only(p, used, len, limit);
        probe_tries_in_turn(p, inside, len, limit);
        let r = probe_free(p, inside, len, limit);
        if inside.contains(r) {
            assert forall|i: int| 0 <= i < len implies inside.contains(#[trigger] wrapped(p, i, len)) by {}
            round_trip_covers(p, inside, len);
            vstd::set_lib::lemma_int_range(0, len);
            assert(set_int_range(0, len).subset_of(inside));
            vstd::set_lib::lemma_len_subset(set_int_range(0, len), inside);
        }
        assert(set_int_range(0, len).contains(r));
    } else if used.contains(p) {
        assert(rust_rem(p + 1, len) == p + 1) by {
            if p + 1 < 0 {
                vstd::arithmetic::div_mod::lemma_small_mod((-(p + 1)) as nat, len as nat);
            } else {
                vstd::arithmetic::div_mod::lemma_small_mod(0, len as nat);
            }
        }
        probe_ends_free(p + 1, used, len, (limit - 1) as nat);
    }
}

/// `state_is_sound` after every number of slots.
proof fn state_is_sound_throughout(k: int, seed: int, len: int, anchor: int)
    requires
        len >= 1,
        0 <= k <= len,
    ensures
        state_is_sound(k, seed, len, anchor),
    decreases k,
{
    let queue = set_int_range(0, len);
    if k == 0 {
        let first = set![anchor];
        assert(first =~= Set::<int>::empty().insert(anchor));
        if 0 <= anchor < len {
            assert(first.intersect(queue) =~= first);
        } else {
            assert(first.intersect(queue) =~= Set::<int>::empty());
        }
    } else {
        state_is_sound_throughout(k - 1, seed, len, anchor);
        let (cur, used) = shuffle_state(k - 1, seed, len, anchor);
        if k - 1 == anchor {
            assert(shuffle_state(k, seed, len, anchor) == (cur, used));
        } else {
            let step = shuffle_step(seed, len);
            let start = rust_rem(cur + step, len);
            remainder_in_range(cur + step, len);
            probe_ends_free(start, used, len, (2 * len) as nat);
            let p = probe_free(start, used, len, (2 * len) as nat);
            assert(shuffle_state(k, seed, len, anchor) == (p, used.insert(p)));
            assert(slot_origin(k - 1, seed, len, anchor) == p);
            let grown = used.insert(p);
            let inside = used.intersect(queue);
            vstd::set::axiom_set_intersect_finite(used, queue);
            if 0 <= p < len {
                assert(grown.intersect(queue) =~= inside.insert(p));
            } else {
                assert(grown.intersect(queue) =~= inside);
            }
            assert forall|i: int, j: int|
                0 <= i < j < k && i != anchor && j != anchor implies #[trigger] slot_origin(
                i,
                seed,
                len,
                anchor,
            ) != #[trigger] slot_origin(j, seed, len, anchor) by {
                if j == k - 1 {
                    assert(used.contains(slot_origin(i, seed, len, anchor)));
                }
            }
        }
    }
}

/// Wherever the anchor lies, no two slots of a shuffled queue are given the
/// same position, none is given the anchor's, and the search for a free
/// position never has to give up.
pub proof fn slots_never_collide(seed: int, len: int, anchor: int)
    requires
        len >= 1,
    ensures
        forall|slot: int|
            0 <= slot < len && slot != anchor ==> #[trigger] slot_origin(slot, seed, len, anchor)
                != anchor && -len < slot_origin(slot, seed, len, anchor) < len,
        forall|a: int, b: int|
            0 <= a < b < len && a != anchor && b != anchor ==> #[trigger] slot_origin(
                a,
                seed,
                len,
                anchor,
            ) != #[trigger] slot_origin(b, seed, len, anchor),
        forall|slot: int|
            0 <= slot < len && slot != anchor ==> !shuffle_state(slot, seed, len, anchor).1.contains(
                #[trigger] slot_origin(slot, seed, len, anchor),
            ),
{
    state_is_sound_throughout(len, seed, len, anchor);
    assert forall|slot: int| 0 <= slot < len && slot != anchor implies !shuffle_state(
        slot,
        seed,
        len,
        anchor,
    ).1.contains(#[trigger] slot_origin(slot, seed, len, anchor)) by {
        state_is_sound_throughout(slot, seed, len, anchor);
        let (cur, used) = shuffle_state(slot, seed, len, anchor);
        remainder_in_range(cur + shuffle_step(seed, len), len);
        probe_ends_free(rust_rem(cur + shuffle_step(seed, len), len), used, len, (2 * len) as nat);
    }
}

} // verus!
