use musicsloth::db::operations::DbOperations;

#[test]
fn track_hash_of_known_lists() {
    assert_eq!(
        DbOperations::calculate_track_hash(&[]),
        "e3b0c44298fc1c149afbf4c8996fb92427ae41e4649b934ca495991b7852b855"
    );
    assert_eq!(
        DbOperations::calculate_track_hash(&[1, 2, 3]),
        "e2e2033ae7e19d680599d4eb0a1359a2b48ec5baac75066c317fbf85159c54ef"
    );
    assert_eq!(
        DbOperations::calculate_track_hash(&[-1]),
        "12a3ae445661ce5dee78d0650d33362dec29c4f82af05e7e57fb595bbbacf0ca"
    );
    assert_eq!(
        DbOperations::calculate_track_hash(&[42, -7, 42, 0, 9007199254740993]),
        "51a1a495878dff147db53adda733a3ca7b0741369cb4362113a90158eaf0a615"
    );
    assert_eq!(
        DbOperations::calculate_track_hash(&[i64::MIN, i64::MAX]),
        "561a887583e2f21e15ac0f2ac49e6ab2a790bfa7b819bad29185ef196c26d8a9"
    );
}

#[test]
fn track_hash_ignores_order() {
    assert_eq!(
        DbOperations::calculate_track_hash(&[3, 1, 2]),
        DbOperations::calculate_track_hash(&[1, 2, 3])
    );
    assert_eq!(
        DbOperations::calculate_track_hash(&[i64::MAX, i64::MIN]),
        DbOperations::calculate_track_hash(&[i64::MIN, i64::MAX])
    );
    assert_ne!(
        DbOperations::calculate_track_hash(&[1, 2]),
        DbOperations::calculate_track_hash(&[1, 2, 2])
    );
}

#[test]
fn ids_are_sorted_ascending() {
    assert_eq!(DbOperations::sorted_ids(&[]), Vec::<i64>::new());
    assert_eq!(DbOperations::sorted_ids(&[5]), vec![5]);
    assert_eq!(DbOperations::sorted_ids(&[3, -1, 3, 0, i64::MIN, i64::MAX]), vec![i64::MIN, -1, 0, 3, 3, i64::MAX]);
    assert_eq!(DbOperations::sorted_ids(&[9, 8, 7, 6, 5, 4, 3, 2, 1]), vec![1, 2, 3, 4, 5, 6, 7, 8, 9]);
}

#[test]
fn queue_starts_at_the_clicked_track() {
    let ids = [10, 20, 30, 40, 50];
    assert_eq!(DbOperations::reorder_from_clicked(&ids, 0), vec![10, 20, 30, 40, 50]);
    assert_eq!(DbOperations::reorder_from_clicked(&ids, 2), vec![30, 40, 50, 10, 20]);
    assert_eq!(DbOperations::reorder_from_clicked(&ids, 4), vec![50, 10, 20, 30, 40]);
    assert_eq!(DbOperations::reorder_from_clicked(&[7], 0), vec![7]);
}

#[test]
fn reordering_keeps_the_track_hash() {
    let ids = [10, 20, 30, 40, 50];
    for clicked in 0..ids.len() {
        let reordered = DbOperations::reorder_from_clicked(&ids, clicked);
        assert_eq!(
            DbOperations::calculate_track_hash(&reordered),
            DbOperations::calculate_track_hash(&ids)
        );
    }
}

#[test]
fn tracks_are_stored_at_their_first_place() {
    assert_eq!(DbOperations::queue_positions(&[]), Vec::<usize>::new());
    assert_eq!(DbOperations::queue_positions(&[5, 6, 7]), vec![0, 1, 2]);
    assert_eq!(DbOperations::queue_positions(&[5, 6, 5, 7, 6]), vec![0, 1, 0, 3, 1]);
}
