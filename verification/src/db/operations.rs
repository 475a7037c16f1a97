//! Queue arithmetic: stepping through a shuffled queue and locating tracks in it.
//!
//! A queue is played either in stored order (seed `1`) or in a shuffled order
//! derived from a seed.  The shuffled order keeps one slot, the anchor, in
//! place and fills every other slot by striding through the queue and probing
//! forward past positions that are already taken.

use std::collections::HashSet;
use vstd::prelude::*;

verus! {

/// Namespace for the queue and library operations.
pub struct DbOperations;

/// Remainder of `a` by a positive `n`, truncated toward zero as the machine
/// computes it on signed integers.
pub open spec fn rust_rem(a: int, n: int) -> int {
    if a >= 0 {
        a % n
    } else {
        -((-a) % n)
    }
}

/// Stride of a shuffled queue: the seed's magnitude reduced modulo the queue
/// length, and never zero.
pub open spec fn shuffle_step(seed: int, len: int) -> int {
    let magnitude = if seed >= 0 {
        seed
    } else {
        -seed
    };
    if magnitude % len == 0 {
        1
    } else {
        magnitude % len
    }
}

/// Index reached from `current` by one stride forward (`direction > 0`) or
/// backward.  Queues of at most one track always yield index 0.
pub open spec fn stepped_index(current: int, seed: int, len: int, direction: int) -> int {
    if len <= 1 {
        0
    } else if direction > 0 {
        rust_rem(current + shuffle_step(seed, len), len)
    } else {
        rust_rem(current - shuffle_step(seed, len) + len, len)
    }
}

/// First position not in `used`, probing from `p` one position at a time and
/// wrapping at `len`; gives up after `limit` probes and yields where it stands.
/// The shuffled order allows twice the queue's length, which always suffices.
pub open spec fn probe_free(p: int, used: Set<int>, len: int, limit: nat) -> int
    decreases limit,
{
    if limit == 0 || !used.contains(p) {
        p
    } else {
        probe_free(rust_rem(p + 1, len), used, len, (limit - 1) as nat)
    }
}

/// Position last handed out and the set of positions taken, once the slots
/// `0..slots` of the shuffled order have been filled.
pub open spec fn shuffle_state(slots: int, seed: int, len: int, anchor: int) -> (int, Set<int>)
    decreases slots,
{
    if slots <= 0 {
        (anchor, set![anchor])
    } else {
        let (cur, used) = shuffle_state(slots - 1, seed, len, anchor);
        if slots - 1 == anchor {
            (cur, used)
        } else {
            let p = probe_free(
                rust_rem(cur + shuffle_step(seed, len), len),
                used,
                len,
                (2 * len) as nat,
            );
            (p, used.insert(p))
        }
    }
}

/// Original position that the shuffled order places in `slot`.
pub open spec fn slot_origin(slot: int, seed: int, len: int, anchor: int) -> int {
    if slot == anchor {
        anchor
    } else {
        shuffle_state(slot + 1, seed, len, anchor).0
    }
}

/// First slot at or after `from` whose origin is `original`, skipping the
/// anchor slot; `original` itself when there is none.
pub open spec fn find_slot(from: int, original: int, seed: int, len: int, anchor: int) -> int
    decreases len - from,
{
    if from >= len {
        original
    } else if from != anchor && slot_origin(from, seed, len, anchor) == original {
        from
    } else {
        find_slot(from + 1, original, seed, len, anchor)
    }
}

/// Slot in which a track at `original` ends up once the queue is shuffled.
pub open spec fn shuffled_position(original: int, seed: int, len: int, anchor: int) -> int {
    if len <= 1 {
        0
    } else if seed == 1 {
        original
    } else if original == anchor {
        anchor
    } else {
        find_slot(0, original, seed, len, anchor)
    }
}

/// Original position of the track that plays in `slot` of the queue, if the
/// slot exists.
pub open spec fn origin_of_slot(slot: int, seed: int, len: int, anchor: int) -> Option<int> {
    if seed == 1 {
        Some(slot)
    } else if len <= 0 {
        None
    } else if slot == anchor {
        Some(anchor)
    } else if 0 <= slot < len {
        Some(slot_origin(slot, seed, len, anchor))
    } else {
        None
    }
}

/// The stride computed from machine integers.
fn step_of(seed: i64, queue_length: i32) -> (step: i64)
    requires
        queue_length >= 1,
    ensures
        step == shuffle_step(seed as int, queue_length as int),
        1 <= step <= queue_length,
{
    let len: i64 = queue_length as i64;
    let r: i64 = seed % len;
    let magnitude: i64 = if r < 0 {
        -r
    } else {
        r
    };
    if magnitude == 0 {
        1
    } else {
        magnitude
    }
}

/// `taken` is the set of positions held in `used`.
spec fn mirrors(used: Set<i64>, taken: Set<int>) -> bool {
    &&& forall|v: i64| used.contains(v) <==> taken.contains(v as int)
    &&& forall|x: int| taken.contains(x) ==> i64::MIN <= x <= i64::MAX
}

/// One probe loop: the first free position from `start`.
fn next_free(start: i64, used: &HashSet<i64>, queue_length: i32, Ghost(taken): Ghost<Set<int>>) -> (p:
    i64)
    requires
        queue_length >= 1,
        -queue_length < start < queue_length,
        mirrors(used@, taken),
    ensures
        p == probe_free(start as int, taken, queue_length as int, (2 * queue_length) as nat),
        -queue_length < p < queue_length,
{
    broadcast use vstd::std_specs::hash::group_hash_axioms;

    let len: i64 = queue_length as i64;
    let mut p: i64 = start;
    let mut budget: i64 = 2 * len;
    while budget > 0 && used.contains(&p)
        invariant
            len == queue_length,
            queue_length >= 1,
            0 <= budget <= 2 * len,
            -len < p < len,
            mirrors(used@, taken),
            probe_free(start as int, taken, len as int, (2 * len) as nat) == probe_free(
                p as int,
                taken,
                len as int,
                budget as nat,
            ),
        decreases budget,
    {
        p = (p + 1) % len;
        budget = budget - 1;
    }
    p
}

/// Fills the slots `0..upto` of the shuffled order and reports the position
/// handed to the last of them.
fn fill_slots(upto: i32, seed: i64, queue_length: i32, anchor_position: i32) -> (cur: i64)
    requires
        queue_length >= 1,
        0 <= upto <= queue_length,
    ensures
        cur == shuffle_state(upto as int, seed as int, queue_length as int, anchor_position as int).0,
        cur == anchor_position || -queue_length < cur < queue_length,
{
    broadcast use vstd::std_specs::hash::group_hash_axioms;

    let len: i64 = queue_length as i64;
    let step: i64 = step_of(seed, queue_length);
    let mut cur: i64 = anchor_position as i64;
    let mut used: HashSet<i64> = HashSet::new();
    used.insert(anchor_position as i64);
    let ghost mut taken: Set<int> = set![anchor_position as int];
    let mut i: i32 = 0;
    while i < upto
        invariant
            len == queue_length,
            queue_length >= 1,
            0 <= i <= upto <= queue_length,
            step == shuffle_step(seed as int, queue_length as int),
            1 <= step <= queue_length,
            mirrors(used@, taken),
            cur == anchor_position || -len < cur < len,
            (cur as int, taken) == shuffle_state(
                i as int,
                seed as int,
                queue_length as int,
                anchor_position as int,
            ),
        decreases upto - i,
    {
        if i != anchor_position {
            let start: i64 = (cur + step) % len;
            let p: i64 = next_free(start, &used, queue_length, Ghost(taken));
            used.insert(p);
            cur = p;
            proof {
                taken = taken.insert(p as int);
            }
        }
        i = i + 1;
    }
    cur
}

impl DbOperations {
    /// Index of the track that follows (`direction > 0`) or precedes the one
    /// at `current_index` in a queue shuffled by `seed`.
    pub fn calculate_shuffled_index(
        current_index: i32,
        seed: i64,
        queue_length: i32,
        direction: i32,
    ) -> (next: i32)
        ensures
            next == stepped_index(
                current_index as int,
                seed as int,
                queue_length as int,
                direction as int,
            ),
    {
        if queue_length <= 1 {
            return 0;
        }
        let len: i64 = queue_length as i64;
        let step: i64 = step_of(seed, queue_length);
        let moved: i64 = if direction > 0 {
            current_index as i64 + step
        } else {
            current_index as i64 - step + len
        };
        (moved % len) as i32
    }

    /// Slot in which the track at `original_index` plays once the queue is
    /// shuffled by `seed` around `anchor_position`.  Never fails.
    pub fn find_shuffled_position(
        original_index: i32,
        seed: i64,
        queue_length: i32,
        anchor_position: i32,
    ) -> (found: Result<i32, String>)
        ensures
            found is Ok,
            found->Ok_0 == shuffled_position(
                original_index as int,
                seed as int,
                queue_length as int,
                anchor_position as int,
            ),
    {
        broadcast use vstd::std_specs::hash::group_hash_axioms;

        if queue_length <= 1 {
            return Ok(0);
        }
        if seed == 1 {
            return Ok(original_index);
        }
        if original_index == anchor_position {
            return Ok(anchor_position);
        }
        let len: i64 = queue_length as i64;
        let step: i64 = step_of(seed, queue_length);
        let mut cur: i64 = anchor_position as i64;
        let mut used: HashSet<i64> = HashSet::new();
        used.insert(anchor_position as i64);
        let ghost mut taken: Set<int> = set![anchor_position as int];
        let ghost wanted = shuffled_position(
            original_index as int,
            seed as int,
            queue_length as int,
            anchor_position as int,
        );
        let mut i: i32 = 0;
        while i < queue_length
            invariant
                len == queue_length,
                queue_length > 1,
                0 <= i <= queue_length,
                step == shuffle_step(seed as int, queue_length as int),
                1 <= step <= queue_length,
                mirrors(used@, taken),
                cur == anchor_position || -len < cur < len,
                (cur as int, taken) == shuffle_state(
                    i as int,
                    seed as int,
                    queue_length as int,
                    anchor_position as int,
                ),
                wanted == shuffled_position(
                    original_index as int,
                    seed as int,
                    queue_length as int,
                    anchor_position as int,
                ),
                wanted == find_slot(
                    i as int,
                    original_index as int,
                    seed as int,
                    queue_length as int,
                    anchor_position as int,
                ),
            decreases queue_length - i,
        {
            if i != anchor_position {
                let start: i64 = (cur + step) % len;
                let p: i64 = next_free(start, &used, queue_length, Ghost(taken));
                if p == original_index as i64 {
                    proof {
                        assert(slot_origin(
                            i as int,
                            seed as int,
                            queue_length as int,
                            anchor_position as int,
                        ) == p);
                    }
                    return Ok(i);
                }
                used.insert(p);
                cur = p;
                proof {
                    taken = taken.insert(p as int);
                }
            }
            i = i + 1;
        }
        Ok(original_index)
    }

    /// Original position of the track that plays in slot `shuffled_position`
    /// of a queue of `queue_length` tracks, or `None` where the queue has no
    /// such slot.  With seed `1` the queue plays in stored order and every
    /// slot is its own origin.
    pub fn original_position_at(
        shuffled_position: i32,
        seed: i64,
        queue_length: i32,
        anchor_position: i32,
    ) -> (origin: Option<i32>)
        ensures
            origin is Some <==> origin_of_slot(
                shuffled_position as int,
                seed as int,
                queue_length as int,
                anchor_position as int,
            ) is Some,
            origin matches Some(p) ==> origin_of_slot(
                shuffled_position as int,
                seed as int,
                queue_length as int,
                anchor_position as int,
            ) == Some(p as int),
    {
        if seed == 1 {
            return Some(shuffled_position);
        }
        if queue_length <= 0 {
            return None;
        }
        if shuffled_position == anchor_position {
            return Some(anchor_position);
        }
        if shuffled_position < 0 || shuffled_position >= queue_length {
            return None;
        }
        let cur: i64 = fill_slots(shuffled_position + 1, seed, queue_length, anchor_position);
        Some(cur as i32)
    }
}

} // verus!
