use musicsloth::db::models::{default_shuffle_seed, stored_shuffle_seed, toggled_shuffle_seed};
use musicsloth::db::operations::DbOperations;

#[test]
fn stepping_forward_and_back() {
    let forward: Vec<i32> = (0..5).map(|c| DbOperations::calculate_shuffled_index(c, 7, 5, 1)).collect();
    assert_eq!(forward, vec![2, 3, 4, 0, 1]);
    let back: Vec<i32> = (0..5).map(|c| DbOperations::calculate_shuffled_index(c, 7, 5, -1)).collect();
    assert_eq!(back, vec![3, 4, 0, 1, 2]);
    assert_eq!(DbOperations::calculate_shuffled_index(2, 1234567, 10, 1), 9);
    assert_eq!(DbOperations::calculate_shuffled_index(2, 1234567, 10, -1), 5);
    assert_eq!(DbOperations::calculate_shuffled_index(2, 1234567, 10, 0), 5);
}

#[test]
fn stepping_back_undoes_stepping_forward() {
    for seed in [2i64, 7, -9, 1234567, i64::MAX, i64::MIN] {
        for len in [2, 3, 10, 97] {
            for current in 0..len {
                let next = DbOperations::calculate_shuffled_index(current, seed, len, 1);
                assert!(0 <= next && next < len);
                assert_eq!(DbOperations::calculate_shuffled_index(next, seed, len, -1), current);
            }
        }
    }
}

#[test]
fn step_is_never_zero_and_ignores_the_sign_of_the_seed() {
    assert_eq!(DbOperations::calculate_shuffled_index(3, 10, 5, 1), 4);
    assert_eq!(DbOperations::calculate_shuffled_index(3, 0, 5, 1), 4);
    assert_eq!(DbOperations::calculate_shuffled_index(0, -7, 5, 1), 2);
    assert_eq!(DbOperations::calculate_shuffled_index(0, i64::MIN, 5, 1), 3);
}

#[test]
fn short_queues_always_give_index_zero() {
    assert_eq!(DbOperations::calculate_shuffled_index(0, 7, 1, 1), 0);
    assert_eq!(DbOperations::calculate_shuffled_index(5, 7, 0, -1), 0);
    assert_eq!(DbOperations::calculate_shuffled_index(5, 7, -3, 1), 0);
}

#[test]
fn stepping_stays_clear_of_overflow() {
    assert_eq!(DbOperations::calculate_shuffled_index(i32::MAX, 1, i32::MAX, 1), 1);
    assert_eq!(DbOperations::calculate_shuffled_index(i32::MAX - 1, -2, i32::MAX, 1), 1);
    assert_eq!(DbOperations::calculate_shuffled_index(-4, 7, 5, 1), -2);
}

fn positions(seed: i64, len: i32, anchor: i32) -> Vec<i32> {
    (0..len)
        .map(|o| DbOperations::find_shuffled_position(o, seed, len, anchor).unwrap())
        .collect()
}

fn origins(seed: i64, len: i32, anchor: i32) -> Vec<Option<i32>> {
    (0..len)
        .map(|s| DbOperations::original_position_at(s, seed, len, anchor))
        .collect()
}

#[test]
fn shuffled_positions_of_known_queues() {
    assert_eq!(positions(7, 5, 2), vec![4, 1, 2, 3, 0]);
    assert_eq!(positions(1234567, 10, 3), vec![0, 4, 7, 3, 2, 6, 9, 1, 5, 8]);
    assert_eq!(positions(1700000000123, 8, 0), vec![0, 3, 6, 1, 4, 7, 2, 5]);
    assert_eq!(positions(-9, 6, 5), vec![1, 3, 0, 2, 4, 5]);
    assert_eq!(positions(12, 6, 1), vec![5, 1, 0, 2, 3, 4]);
}

#[test]
fn origins_of_known_queues() {
    let some = |v: Vec<i32>| v.into_iter().map(Some).collect::<Vec<_>>();
    assert_eq!(origins(7, 5, 2), some(vec![4, 1, 2, 3, 0]));
    assert_eq!(origins(1234567, 10, 3), some(vec![0, 7, 4, 3, 1, 8, 5, 2, 9, 6]));
    assert_eq!(origins(-9, 6, 5), some(vec![2, 0, 3, 1, 4, 5]));
    assert_eq!(origins(12, 6, 1), some(vec![2, 1, 3, 4, 5, 0]));
}

#[test]
fn position_and_origin_are_inverse() {
    for seed in [2i64, 7, -9, 12, 1234567, 1700000000123] {
        for len in [2, 5, 6, 10, 31] {
            for anchor in 0..len {
                let mut seen = vec![false; len as usize];
                for slot in 0..len {
                    let origin = DbOperations::original_position_at(slot, seed, len, anchor).unwrap();
                    assert!(0 <= origin && origin < len);
                    assert!(!seen[origin as usize]);
                    seen[origin as usize] = true;
                    assert_eq!(DbOperations::find_shuffled_position(origin, seed, len, anchor), Ok(slot));
                }
                assert_eq!(DbOperations::original_position_at(anchor, seed, len, anchor), Some(anchor));
            }
        }
    }
}

#[test]
fn unshuffled_and_short_queues() {
    assert_eq!(DbOperations::find_shuffled_position(3, 1, 10, 0), Ok(3));
    assert_eq!(DbOperations::find_shuffled_position(3, 99, 1, 0), Ok(0));
    assert_eq!(DbOperations::find_shuffled_position(3, 99, 0, 0), Ok(0));
    assert_eq!(DbOperations::find_shuffled_position(0, 5, 1, 0), Ok(0));
    assert_eq!(DbOperations::original_position_at(3, 1, 10, 0), Some(3));
    assert_eq!(DbOperations::original_position_at(42, 1, 0, 0), Some(42));
    assert_eq!(DbOperations::original_position_at(0, 5, 0, 0), None);
    assert_eq!(DbOperations::original_position_at(0, 5, 1, 3), Some(0));
    assert_eq!(DbOperations::original_position_at(0, 5, 1, 0), Some(0));
}

#[test]
fn positions_outside_the_queue() {
    assert_eq!(DbOperations::find_shuffled_position(9, 7, 5, 2), Ok(9));
    assert_eq!(DbOperations::find_shuffled_position(-1, 7, 5, 2), Ok(-1));
    assert_eq!(DbOperations::original_position_at(7, 7, 5, 2), None);
    assert_eq!(DbOperations::original_position_at(-1, 7, 5, 2), None);
}

#[test]
fn anchors_outside_the_queue() {
    let found: Vec<i32> = (0..5)
        .map(|o| DbOperations::find_shuffled_position(o, 7, 5, -3).unwrap())
        .collect();
    assert_eq!(found, vec![3, 1, 4, 2, 4]);
    assert_eq!(
        origins(7, 5, -3),
        vec![Some(-1), Some(1), Some(3), Some(0), Some(2)]
    );
    assert_eq!(positions(7, 5, 9), vec![2, 0, 3, 1, 4]);
    assert_eq!(
        origins(7, 5, 9),
        vec![Some(1), Some(3), Some(0), Some(2), Some(4)]
    );
}

#[test]
fn shuffle_seed_defaults_and_toggles() {
    assert_eq!(default_shuffle_seed(), 1);
    assert_eq!(stored_shuffle_seed(None), 1);
    assert_eq!(stored_shuffle_seed(Some(17)), 17);
    assert_eq!(toggled_shuffle_seed(Some(1), 1700000000123), 1700000000123);
    assert_eq!(toggled_shuffle_seed(None, 55), 55);
    assert_eq!(toggled_shuffle_seed(None, 1), 2);
    assert_eq!(toggled_shuffle_seed(Some(55), 77), 1);
    assert_eq!(toggled_shuffle_seed(Some(2), 1), 1);
}
