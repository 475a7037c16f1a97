use musicsloth::audio::player::{
    position_from_samples, samples_from_position, LoopAction, Player, MAX_VOLUME_MDB,
    MIN_VOLUME_MDB,
};

#[test]
fn a_new_player_is_idle() {
    let player = Player::new();
    let state = player.get_state();
    assert!(!state.is_playing);
    assert!(!state.is_paused);
    assert_eq!(state.current_file, None);
    assert_eq!(state.position_ms, 0);
    assert_eq!(state.duration_ms, None);
    assert_eq!(state.volume_mdb, 0);
    assert!(state.normalization_enabled);
    assert_eq!(state.track_gain_mdb, 0);
    assert!(!player.is_playing());
    assert!(!player.is_paused());
    assert_eq!(player.current_file(), None);
    assert_eq!(player.total_duration(), None);
}

#[test]
fn play_starts_a_fresh_session() {
    let mut player = Player::new();
    player.set_volume_db(-3_000);
    player.seek(500);
    player.play_with_gain("a.flac".to_string(), 2_500);
    let state = player.get_state();
    assert!(state.is_playing);
    assert!(!state.is_paused);
    assert_eq!(state.current_file, Some("a.flac".to_string()));
    assert_eq!(state.position_ms, 0);
    assert_eq!(state.track_gain_mdb, 2_500);
    assert_eq!(state.volume_mdb, -3_000);
    assert_eq!(player.next_action(), LoopAction::Decode);
    assert!(!player.has_track_ended());
    player.play("b.mp3".to_string());
    assert_eq!(player.get_state().track_gain_mdb, 0);
    assert_eq!(player.current_file(), Some("b.mp3".to_string()));
}

#[test]
fn pause_and_resume() {
    let mut player = Player::new();
    player.pause();
    assert!(player.is_paused());
    assert!(!player.is_playing());
    player.play("a.flac".to_string());
    assert!(!player.is_paused());
    assert!(player.is_playing());
    player.pause();
    assert!(player.is_paused());
    assert!(!player.is_playing());
    assert!(player.get_state().is_playing);
    assert_eq!(player.next_action(), LoopAction::Sleep);
    player.pause();
    assert!(player.is_paused());
    assert_eq!(player.next_action(), LoopAction::Sleep);
    player.resume();
    assert!(!player.is_paused());
    assert_eq!(player.next_action(), LoopAction::Decode);
    player.resume();
    assert!(player.is_playing());
}

#[test]
fn stop_wakes_a_paused_loop_and_resets_the_session() {
    let mut player = Player::new();
    player.play_with_gain("a.flac".to_string(), 1_000);
    player.stream_opened(44_100, 2, Some(180_000));
    player.chunk_decoded(88_200);
    player.pause();
    player.seek(5_000);
    player.request_stop();
    assert!(!player.is_paused());
    assert_eq!(player.next_action(), LoopAction::Exit);
    assert_eq!(player.next_action(), LoopAction::Exit);
    player.session_ended();
    player.stop();
    let state = player.get_state();
    assert!(!state.is_playing);
    assert!(!state.is_paused);
    assert_eq!(state.current_file, None);
    assert_eq!(state.position_ms, 0);
    assert_eq!(state.duration_ms, None);
    assert_eq!(state.track_gain_mdb, 1_000);
    assert!(!player.has_track_ended());
    player.stop();
    player.request_stop();
    player.stop();
    assert!(!player.get_state().is_playing);
    player.play("b.flac".to_string());
    assert_eq!(player.next_action(), LoopAction::Decode);
}

#[test]
fn seek_requests_are_handed_out_once_and_the_last_one_wins() {
    let mut player = Player::new();
    player.play("a.flac".to_string());
    player.seek(1_000);
    player.seek(42_000);
    assert_eq!(player.next_action(), LoopAction::Seek(42_000));
    assert_eq!(player.next_action(), LoopAction::Decode);
    player.pause();
    player.seek(7);
    assert_eq!(player.next_action(), LoopAction::Seek(7));
    assert_eq!(player.next_action(), LoopAction::Sleep);
}

#[test]
fn position_follows_decoded_samples_and_seek_landings() {
    let mut player = Player::new();
    player.play("a.flac".to_string());
    player.stream_opened(44_100, 2, Some(180_000));
    assert_eq!(player.total_duration(), Some(180_000));
    assert_eq!(player.current_position(), 0);
    player.chunk_decoded(88_200);
    assert_eq!(player.current_position(), 1_000);
    player.chunk_decoded(2_304);
    assert_eq!(player.current_position(), 1_026);
    player.seek(60_000);
    assert_eq!(player.next_action(), LoopAction::Seek(60_000));
    player.seek_completed(59_877);
    let landed = player.current_position();
    assert!(landed <= 59_877 && 59_877 - landed <= 1);
    assert_eq!(landed, 59_876);
    player.chunk_decoded(2_304);
    assert_eq!(player.current_position(), 59_903);
}

#[test]
fn position_arithmetic() {
    assert_eq!(position_from_samples(88_200, 44_100, 2), 1_000);
    assert_eq!(position_from_samples(88_199, 44_100, 2), 999);
    assert_eq!(position_from_samples(48_000, 48_000, 1), 1_000);
    assert_eq!(position_from_samples(5, 0, 2), 0);
    assert_eq!(position_from_samples(5, 44_100, 0), 0);
    assert_eq!(position_from_samples(u64::MAX, 1, 1), u64::MAX);
    assert_eq!(position_from_samples(u64::MAX, 1000, 1), u64::MAX);
    assert_eq!(position_from_samples(u64::MAX, 2000, 1), u64::MAX / 2);
    assert_eq!(samples_from_position(1_000, 44_100, 2), 88_200);
    assert_eq!(samples_from_position(59_877, 44_100, 2), 5_281_151);
    assert_eq!(samples_from_position(1, 44_100, 2), 88);
    assert_eq!(samples_from_position(10, 0, 2), 0);
    assert_eq!(samples_from_position(u64::MAX, 44_100, 2), u64::MAX);
}

#[test]
fn sample_counter_saturates() {
    let mut player = Player::new();
    player.play("a.flac".to_string());
    player.stream_opened(1_000, 1, None);
    player.seek_completed(u64::MAX);
    assert_eq!(player.current_position(), u64::MAX);
    player.chunk_decoded(usize::MAX);
    assert_eq!(player.current_position(), u64::MAX);
}

#[test]
fn volume_is_clamped_to_its_range() {
    let mut player = Player::new();
    assert_eq!(MIN_VOLUME_MDB, -60_000);
    assert_eq!(MAX_VOLUME_MDB, 15_000);
    player.set_volume_db(-12_345);
    assert_eq!(player.volume_db(), -12_345);
    player.set_volume_db(15_000);
    assert_eq!(player.volume_db(), 15_000);
    player.set_volume_db(15_001);
    assert_eq!(player.volume_db(), 15_000);
    player.set_volume_db(-60_000);
    assert_eq!(player.volume_db(), -60_000);
    player.set_volume_db(-60_001);
    assert_eq!(player.volume_db(), -60_000);
    player.set_volume_db(i32::MAX);
    assert_eq!(player.volume_db(), 15_000);
    player.set_volume_db(i32::MIN);
    assert_eq!(player.volume_db(), -60_000);
    assert_eq!(player.get_state().volume_mdb, -60_000);
}

#[test]
fn effective_gain_combines_volume_and_track_gain_below_unity() {
    let mut player = Player::new();
    assert_eq!(player.effective_gain_mdb(), 0);
    player.set_volume_db(-6_000);
    assert_eq!(player.effective_gain_mdb(), -6_000);
    player.set_track_gain(4_000);
    assert_eq!(player.effective_gain_mdb(), -2_000);
    player.set_track_gain(9_000);
    assert_eq!(player.effective_gain_mdb(), 0);
    player.set_normalization_enabled(false);
    assert_eq!(player.effective_gain_mdb(), -6_000);
    assert!(!player.get_state().normalization_enabled);
    player.set_volume_db(10_000);
    assert_eq!(player.effective_gain_mdb(), 0);
    player.set_normalization_enabled(true);
    player.set_track_gain(-12_000);
    assert_eq!(player.effective_gain_mdb(), -2_000);
    player.set_track_gain(i32::MIN);
    player.set_volume_db(-60_000);
    assert_eq!(player.effective_gain_mdb(), i32::MIN as i64 - 60_000);
    player.set_track_gain(i32::MAX);
    assert_eq!(player.effective_gain_mdb(), 0);
}

#[test]
fn the_end_of_a_track_is_reported_exactly_once() {
    let mut player = Player::new();
    assert!(!player.has_track_ended());
    player.play("a.flac".to_string());
    assert!(!player.has_track_ended());
    player.session_ended();
    assert!(!player.get_state().is_playing);
    assert!(player.has_track_ended());
    assert!(!player.has_track_ended());
    assert!(!player.has_track_ended());
}

#[test]
fn playing_from_a_position_starts_with_a_seek() {
    let mut player = Player::new();
    player.play_from_position("a.flac".to_string(), 61_000);
    assert!(player.is_playing());
    assert_eq!(player.current_file(), Some("a.flac".to_string()));
    assert_eq!(player.next_action(), LoopAction::Seek(61_000));
    assert_eq!(player.next_action(), LoopAction::Decode);
    assert!(!player.should_stop());
    player.request_stop();
    assert!(player.should_stop());
}
