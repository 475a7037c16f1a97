use musicsloth::metadata::loudness::{loudness_result, LoudnessError};
use musicsloth::metadata::sampling::{SampledAnalysis, SamplingAction, SamplingEvent};

// 8 s at 44.1 kHz stereo are 705600 samples, 400 ms are 35280
const FULL: usize = 705_600;

#[test]
fn segments_are_sought_decoded_and_measured_in_turn() {
    let mut analysis = SampledAnalysis::new(vec![5_000, 40_000], 44_100, 2);
    assert_eq!(analysis.action(), SamplingAction::Seek(5_000));
    assert_eq!(analysis.step(SamplingEvent::SeekDone), SamplingAction::Decode);
    assert_eq!(analysis.step(SamplingEvent::Chunk(FULL - 1)), SamplingAction::Decode);
    assert_eq!(analysis.step(SamplingEvent::Chunk(1)), SamplingAction::Measure);
    assert_eq!(analysis.valid_segments(), 0);
    assert_eq!(analysis.step(SamplingEvent::Measured(Some(-18_250))), SamplingAction::Seek(40_000));
    assert_eq!(analysis.valid_segments(), 1);
    assert_eq!(analysis.step(SamplingEvent::SeekDone), SamplingAction::Decode);
    assert_eq!(analysis.step(SamplingEvent::Chunk(FULL + 4_096)), SamplingAction::Measure);
    assert_eq!(analysis.step(SamplingEvent::Measured(Some(-21_000))), SamplingAction::Finish);
    assert_eq!(analysis.valid_segments(), 2);
    assert_eq!(analysis.accepted_levels(), &vec![-18_250, -21_000]);
    assert_eq!(analysis.finish(-19_400, -3_000), Ok(loudness_result(-19_400, -3_000)));
    assert_eq!(analysis.step(SamplingEvent::SeekDone), SamplingAction::Finish);
    assert_eq!(analysis.action(), SamplingAction::Finish);
}

#[test]
fn failed_seeks_and_short_or_silent_segments_are_passed_over() {
    let mut analysis = SampledAnalysis::new(vec![1, 2, 3, 4, 5], 44_100, 2);
    assert_eq!(analysis.step(SamplingEvent::SeekFailed), SamplingAction::Seek(2));
    assert_eq!(analysis.step(SamplingEvent::SeekDone), SamplingAction::Decode);
    // the stream ends before 400 ms were decoded
    assert_eq!(analysis.step(SamplingEvent::Chunk(35_279)), SamplingAction::Decode);
    assert_eq!(analysis.step(SamplingEvent::EndOfStream), SamplingAction::Seek(3));
    assert_eq!(analysis.step(SamplingEvent::SeekDone), SamplingAction::Decode);
    // a packet that cannot be decoded is skipped
    assert_eq!(analysis.step(SamplingEvent::DecodeFailed), SamplingAction::Decode);
    assert_eq!(analysis.step(SamplingEvent::Chunk(35_280)), SamplingAction::Decode);
    // the stream ends with just enough for a measurement
    assert_eq!(analysis.step(SamplingEvent::EndOfStream), SamplingAction::Measure);
    // but the segment is silent
    assert_eq!(analysis.step(SamplingEvent::Measured(Some(-70_000))), SamplingAction::Seek(4));
    assert_eq!(analysis.step(SamplingEvent::SeekDone), SamplingAction::Decode);
    assert_eq!(analysis.step(SamplingEvent::Chunk(FULL)), SamplingAction::Measure);
    // or the meter has no reading
    assert_eq!(analysis.step(SamplingEvent::Measured(None)), SamplingAction::Seek(5));
    assert_eq!(analysis.valid_segments(), 0);
    assert_eq!(analysis.step(SamplingEvent::SeekDone), SamplingAction::Decode);
    assert_eq!(analysis.step(SamplingEvent::Chunk(FULL)), SamplingAction::Measure);
    assert_eq!(analysis.step(SamplingEvent::Measured(Some(-69_999))), SamplingAction::Finish);
    assert_eq!(analysis.valid_segments(), 1);
    assert_eq!(analysis.accepted_levels(), &vec![-69_999]);
    assert!(analysis.finish(-69_999, -40_000).is_ok());
}

#[test]
fn an_analysis_without_a_valid_segment_fails() {
    let mut analysis = SampledAnalysis::new(vec![10, 20], 48_000, 2);
    assert_eq!(analysis.step(SamplingEvent::SeekFailed), SamplingAction::Seek(20));
    assert_eq!(analysis.step(SamplingEvent::SeekFailed), SamplingAction::Finish);
    assert_eq!(analysis.finish(0, -96_000), Err(LoudnessError::NoValidSegments));
    let empty = SampledAnalysis::new(Vec::new(), 48_000, 2);
    assert_eq!(empty.action(), SamplingAction::Finish);
    assert_eq!(empty.finish(-14_000, 0), Err(LoudnessError::NoValidSegments));
}

#[test]
fn events_that_are_not_waited_for_change_nothing() {
    let mut analysis = SampledAnalysis::new(vec![7], 44_100, 2);
    assert_eq!(analysis.step(SamplingEvent::Chunk(FULL)), SamplingAction::Seek(7));
    assert_eq!(analysis.step(SamplingEvent::Measured(Some(-10_000))), SamplingAction::Seek(7));
    assert_eq!(analysis.step(SamplingEvent::EndOfStream), SamplingAction::Seek(7));
    assert_eq!(analysis.step(SamplingEvent::SeekDone), SamplingAction::Decode);
    assert_eq!(analysis.step(SamplingEvent::SeekDone), SamplingAction::Decode);
    assert_eq!(analysis.step(SamplingEvent::SeekFailed), SamplingAction::Decode);
    assert_eq!(analysis.step(SamplingEvent::Measured(Some(-10_000))), SamplingAction::Decode);
    assert_eq!(analysis.step(SamplingEvent::Chunk(FULL)), SamplingAction::Measure);
    assert_eq!(analysis.step(SamplingEvent::Chunk(FULL)), SamplingAction::Measure);
    assert_eq!(analysis.step(SamplingEvent::EndOfStream), SamplingAction::Measure);
    assert_eq!(analysis.valid_segments(), 0);
    assert_eq!(analysis.step(SamplingEvent::Measured(Some(-10_000))), SamplingAction::Finish);
    assert_eq!(analysis.valid_segments(), 1);
}

#[test]
fn a_stream_without_samples_per_second_is_measured_at_once() {
    // with no rate a segment is full before anything is decoded
    let mut analysis = SampledAnalysis::new(vec![7], 0, 2);
    assert_eq!(analysis.step(SamplingEvent::SeekDone), SamplingAction::Measure);
    assert_eq!(analysis.step(SamplingEvent::Measured(Some(-20_000))), SamplingAction::Finish);
    assert_eq!(analysis.valid_segments(), 1);
}

#[test]
fn a_huge_chunk_fills_a_segment() {
    let mut analysis = SampledAnalysis::new(vec![7], u32::MAX, u16::MAX);
    assert_eq!(analysis.step(SamplingEvent::SeekDone), SamplingAction::Decode);
    assert_eq!(analysis.step(SamplingEvent::Chunk(1)), SamplingAction::Decode);
    assert_eq!(analysis.step(SamplingEvent::Chunk(usize::MAX)), SamplingAction::Measure);
    assert_eq!(analysis.step(SamplingEvent::Measured(Some(0))), SamplingAction::Finish);
    assert_eq!(analysis.valid_segments(), 1);
}

#[test]
fn plans_are_made_for_long_tracks() {
    assert!(SampledAnalysis::plan(None, 44_100, 2).is_none());
    assert!(SampledAnalysis::plan(Some(29_999), 44_100, 2).is_none());
    let analysis = SampledAnalysis::plan(Some(180_000), 44_100, 2).unwrap();
    match analysis.action() {
        SamplingAction::Seek(position) => assert!((5_000..37_400).contains(&position)),
        other => panic!("unexpected action {:?}", other),
    }
    assert_eq!(analysis.valid_segments(), 0);
}
