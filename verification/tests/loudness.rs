use musicsloth::metadata::loudness::{
    analysis_mode, choose_segment_positions, has_enough_audio, loudness_result, normalization_gain, peak_level, plan_segments, raw_gain_mdb,
    sampled_result, segment_is_valid, segment_sample_target, segment_zone, track_peak, AnalysisMode,
    LoudnessError, LoudnessResult, MARGIN_MS, MAX_GAIN_MDB, MIN_GAIN_MDB, NUM_SEGMENTS,
    SEGMENT_DURATION_MS, SILENT_PEAK_MDB, TARGET_LOUDNESS_MLUFS,
};

#[test]
fn test_gain_calculation() {
    // A track at -20 LUFS should get +6 dB gain to reach -14 LUFS target
    let raw_gain = raw_gain_mdb(-20_000) as f32 / 1000.0;
    assert!((raw_gain - 6.0).abs() < 0.001);

    // A track at -10 LUFS should get -4 dB gain (reduction)
    let raw_gain = raw_gain_mdb(-10_000) as f32 / 1000.0;
    assert!((raw_gain - (-4.0)).abs() < 0.001);
}

#[test]
fn target_is_minus_fourteen_lufs() {
    assert_eq!(TARGET_LOUDNESS_MLUFS, -14_000);
    assert_eq!(raw_gain_mdb(-14_000), 0);
    assert_eq!(raw_gain_mdb(-20_000), 6_000);
    assert_eq!(raw_gain_mdb(-10_000), -4_000);
    assert_eq!(raw_gain_mdb(i64::MIN), -14_000i128 - (i64::MIN as i128));
}

#[test]
fn gain_is_raw_gain_when_headroom_allows() {
    assert_eq!(normalization_gain(-20_000, -10_000), 6_000);
    assert_eq!(normalization_gain(-10_000, -1_000), -4_000);
    assert_eq!(normalization_gain(-14_000, 0), 0);
}

#[test]
fn gain_is_held_to_peak_headroom() {
    assert_eq!(normalization_gain(-20_000, -3_000), 3_000);
    assert_eq!(normalization_gain(-20_000, 0), 0);
    assert_eq!(normalization_gain(-30_000, -6_020), 6_020);
}

#[test]
fn gain_is_clamped_to_twelve_decibels() {
    assert_eq!(MAX_GAIN_MDB, 12_000);
    assert_eq!(MIN_GAIN_MDB, -12_000);
    assert_eq!(normalization_gain(-40_000, -96_000), 12_000);
    assert_eq!(normalization_gain(5_000, -96_000), -12_000);
    assert_eq!(normalization_gain(-20_000, 20_000), -12_000);
    assert_eq!(normalization_gain(i64::MIN, -96_000), 12_000);
    assert_eq!(normalization_gain(i64::MAX, i64::MIN), -12_000);
    assert_eq!(normalization_gain(i64::MIN, i64::MAX), -12_000);
}

#[test]
fn result_carries_measurement_and_gain() {
    assert_eq!(
        loudness_result(-18_500, -2_000),
        LoudnessResult {
            integrated_mlufs: -18_500,
            loudness_range_mlu: 0,
            true_peak_mdb: -2_000,
            normalization_gain_mdb: 2_000,
        }
    );
}

#[test]
fn sampled_analysis_fails_only_without_any_segment() {
    assert_eq!(sampled_result(0, -18_000, -1_000), Err(LoudnessError::NoValidSegments));
    assert_eq!(sampled_result(1, -18_000, -6_000), Ok(loudness_result(-18_000, -6_000)));
    assert_eq!(sampled_result(5, -18_000, -6_000).unwrap().normalization_gain_mdb, 4_000);
}

#[test]
fn short_or_unknown_tracks_are_measured_in_full() {
    assert_eq!(analysis_mode(None), AnalysisMode::Full);
    assert_eq!(analysis_mode(Some(0)), AnalysisMode::Full);
    assert_eq!(analysis_mode(Some(-5)), AnalysisMode::Full);
    assert_eq!(analysis_mode(Some(29_999)), AnalysisMode::Full);
    assert_eq!(analysis_mode(Some(30_000)), AnalysisMode::Sampled);
    assert_eq!(analysis_mode(Some(180_000)), AnalysisMode::Sampled);
    assert_eq!(analysis_mode(Some(i64::MAX)), AnalysisMode::Sampled);
}

#[test]
fn zones_tile_the_usable_part_of_the_track() {
    // 180 s: usable = 180000 - 10000 - 8000 = 162000, zone = 32400
    assert_eq!(segment_zone(180_000, 0), (5_000, 37_400));
    assert_eq!(segment_zone(180_000, 1), (37_400, 69_800));
    assert_eq!(segment_zone(180_000, 4), (134_600, 167_000));
    // 30 s: usable = 12000, zone = 2400
    assert_eq!(segment_zone(30_000, 0), (5_000, 7_400));
    assert_eq!(segment_zone(30_000, 4), (14_600, 17_000));
    // 30.004 s: usable = 12004, zone = 2400 (rounded down)
    assert_eq!(segment_zone(30_004, 4), (14_600, 17_000));
}

#[test]
fn drawn_positions_ascend_inside_their_zones() {
    for duration in [30_000i64, 45_123, 180_000, 3_600_000] {
        for _ in 0..50 {
            let positions = choose_segment_positions(duration);
            assert_eq!(positions.len(), NUM_SEGMENTS);
            for (i, &p) in positions.iter().enumerate() {
                let (low, high) = segment_zone(duration, i);
                assert!(low <= p && p < high);
                assert!(p >= MARGIN_MS);
                assert!(p + SEGMENT_DURATION_MS + MARGIN_MS <= duration);
            }
            for pair in positions.windows(2) {
                assert!(pair[0] < pair[1]);
            }
        }
    }
}

#[test]
fn drawn_positions_vary() {
    let first = choose_segment_positions(3_600_000);
    let mut differs = false;
    for _ in 0..20 {
        if choose_segment_positions(3_600_000) != first {
            differs = true;
        }
    }
    assert!(differs);
}

#[test]
fn segment_target_is_eight_seconds_of_samples() {
    assert_eq!(segment_sample_target(44_100, 2), 705_600);
    assert_eq!(segment_sample_target(48_000, 1), 384_000);
    assert_eq!(segment_sample_target(0, 2), 0);
    assert_eq!(segment_sample_target(u32::MAX, u16::MAX), (u32::MAX as u64) * (u16::MAX as u64) * 8);
}

#[test]
fn segment_counts_with_enough_audio_above_silence() {
    // 400 ms at 44.1 kHz stereo are 35280 samples
    assert!(segment_is_valid(35_280, 44_100, 2, Some(-23_000)));
    assert!(!segment_is_valid(35_279, 44_100, 2, Some(-23_000)));
    assert!(!segment_is_valid(705_600, 44_100, 2, Some(-70_000)));
    assert!(segment_is_valid(705_600, 44_100, 2, Some(-69_999)));
    assert!(!segment_is_valid(705_600, 44_100, 2, Some(-80_000)));
    assert!(!segment_is_valid(705_600, 44_100, 2, None));
    assert!(segment_is_valid(0, 0, 0, Some(0)));
}

#[test]
fn plan_is_made_for_long_tracks_only() {
    assert_eq!(plan_segments(None), None);
    assert_eq!(plan_segments(Some(29_999)), None);
    let plan = plan_segments(Some(30_000)).unwrap();
    assert_eq!(plan.len(), NUM_SEGMENTS);
    for (i, &p) in plan.iter().enumerate() {
        let (low, high) = segment_zone(30_000, i);
        assert!(low <= p && p < high);
    }
}

#[test]
fn peak_is_the_largest_magnitude() {
    let samples: Vec<u32> = [0.25f32, -0.75, 0.5, -0.0, f32::NAN, -f32::NAN]
        .iter()
        .map(|v| v.to_bits())
        .collect();
    let peak = track_peak(&samples, 0);
    assert_eq!(f32::from_bits(peak), 0.75);
    assert_eq!(f32::from_bits(track_peak(&samples, 0.9f32.to_bits())), 0.9);
    assert_eq!(track_peak(&[], 0), 0);
    assert_eq!(track_peak(&[(-0.0f32).to_bits(), 0], 0), 0);
    let inf = track_peak(&[f32::NEG_INFINITY.to_bits(), 1.0f32.to_bits()], 0);
    assert_eq!(f32::from_bits(inf), f32::INFINITY);
    let mut running = 0u32;
    for chunk in samples.chunks(2) {
        running = track_peak(chunk, running);
    }
    assert_eq!(running, peak);
    assert_eq!(SILENT_PEAK_MDB, -96_000);
    assert_eq!(peak_level(0, 123), -96_000);
    assert_eq!(peak_level(peak, -2_499), -2_499);
}

#[test]
fn four_hundred_milliseconds_are_enough_audio() {
    assert!(has_enough_audio(35_280, 44_100, 2));
    assert!(!has_enough_audio(35_279, 44_100, 2));
    assert!(has_enough_audio(19_200, 48_000, 1));
    assert!(!has_enough_audio(19_199, 48_000, 1));
    assert!(has_enough_audio(0, 0, 2));
    assert!(has_enough_audio(0, 2, 1));
    assert!(!has_enough_audio(0, 3, 1));
}
