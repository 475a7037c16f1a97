//! The course of a sampled loudness analysis.
//!
//! A long track is measured at a handful of segments.  For each segment the
//! caller seeks, decodes until the segment is full or the stream ends, and
//! asks the meter for the segment's loudness.  A [`SampledAnalysis`] keeps
//! track of where that work stands: after every step the caller reports what
//! happened and is told what to do next.

use crate::metadata::loudness::{
    enough_audio, gain_for, has_enough_audio, is_sampled, plan_segments, sampled_result, samples_in,
    segment_counts, segment_is_valid, segment_sample_target, zone_start, LoudnessError,
    LoudnessResult, NUM_SEGMENTS, SEGMENT_DURATION_MS,
};
use vstd::prelude::*;

verus! {

/// What the caller does next.
#[derive(Clone, Copy, Debug, PartialEq, Eq, Structural)]
pub enum SamplingAction {
    /// Seek to this position in milliseconds and start a fresh meter.
    Seek(i64),
    /// Decode the next chunk and feed it to the meter.
    Decode,
    /// Ask the meter for the loudness of what it was fed.
    Measure,
    /// Every segment has been dealt with.
    Finish,
}

/// What came of the caller's last step.
#[derive(Clone, Copy, Debug, PartialEq, Eq, Structural)]
pub enum SamplingEvent {
    /// The seek succeeded.
    SeekDone,
    /// The seek failed.
    SeekFailed,
    /// A chunk of this many interleaved samples was decoded.
    Chunk(usize),
    /// The stream has ended.
    EndOfStream,
    /// A packet could not be decoded.
    DecodeFailed,
    /// The meter's reading in thousandths of a LUFS; `None` where it has
    /// none or the reading is not finite.
    Measured(Option<i64>),
}

/// What the analysis waits for.
#[derive(Clone, Copy, Debug, PartialEq, Eq, Structural)]
pub enum Phase {
    /// The outcome of the seek to the segment in hand.
    Seeking,
    /// The next chunk of the segment in hand.
    Decoding,
    /// The meter's reading of the segment in hand.
    Measuring,
    /// Nothing: every segment has been dealt with.
    Done,
}

/// The state of a sampled analysis.
pub struct SampledAnalysis {
    positions: Vec<i64>,
    sample_rate: u32,
    channels: u16,
    segment: usize,
    decoded: u64,
    phase: Phase,
    accepted: Vec<i64>,
}

/// The state of a sampled analysis as contracts see it.
pub struct Sampling {
    /// Where each segment starts, in milliseconds.
    pub positions: Seq<i64>,
    pub sample_rate: u32,
    pub channels: u16,
    /// Index of the segment in hand.
    pub segment: int,
    /// Samples decoded of the segment in hand.
    pub decoded: u64,
    pub phase: Phase,
    /// The readings of the segments that count, in order.
    pub accepted: Seq<i64>,
}

/// `x`, or the largest `u64` where `x` is more than that.
pub open spec fn capped(x: int) -> u64 {
    if x > u64::MAX {
        u64::MAX
    } else {
        x as u64
    }
}

impl Sampling {
    /// Samples that fill a segment.
    pub open spec fn target(self) -> int {
        samples_in(SEGMENT_DURATION_MS as int, self.sample_rate, self.channels)
    }

    /// The state in which the segment after the one in hand is begun, or
    /// the analysis is done where there is none.
    pub open spec fn at_next_segment(self) -> Sampling {
        self.at_segment(self.segment + 1)
    }

    /// The state in which segment `index` is begun.
    pub open spec fn at_segment(self, index: int) -> Sampling {
        Sampling {
            segment: index,
            decoded: 0,
            phase: if index < self.positions.len() {
                Phase::Seeking
            } else {
                Phase::Done
            },
            ..self
        }
    }

    /// The state once decoding of the segment in hand has ended: the meter
    /// is read where enough was decoded, else the segment is passed over.
    pub open spec fn after_decoding(self) -> Sampling {
        if enough_audio(self.decoded, self.sample_rate, self.channels) {
            Sampling { phase: Phase::Measuring, ..self }
        } else {
            self.at_next_segment()
        }
    }

    /// The state in which decoding goes on, or has ended where the segment
    /// is full.
    pub open spec fn decoding_on(self) -> Sampling {
        if self.decoded < self.target() {
            Sampling { phase: Phase::Decoding, ..self }
        } else {
            self.after_decoding()
        }
    }

    /// The state after `event`.  An event that the phase does not wait for
    /// changes nothing.
    pub open spec fn after(self, event: SamplingEvent) -> Sampling {
        match (self.phase, event) {
            (Phase::Seeking, SamplingEvent::SeekDone) => self.decoding_on(),
            (Phase::Seeking, SamplingEvent::SeekFailed) => self.at_next_segment(),
            (Phase::Decoding, SamplingEvent::Chunk(samples)) => (Sampling {
                decoded: capped(self.decoded + samples),
                ..self
            }).decoding_on(),
            (Phase::Decoding, SamplingEvent::EndOfStream) => self.after_decoding(),
            (Phase::Measuring, SamplingEvent::Measured(level)) => if segment_counts(
                self.decoded,
                self.sample_rate,
                self.channels,
                level,
            ) {
                (Sampling { accepted: self.accepted.push(level->Some_0), ..self }).at_next_segment()
            } else {
                self.at_next_segment()
            },
            _ => self,
        }
    }

    /// What the caller is to do in this state.
    pub open spec fn action(self) -> SamplingAction {
        match self.phase {
            Phase::Seeking => SamplingAction::Seek(self.positions[self.segment]),
            Phase::Decoding => SamplingAction::Decode,
            Phase::Measuring => SamplingAction::Measure,
            Phase::Done => SamplingAction::Finish,
        }
    }

    /// The segment in hand exists unless the analysis is done, and no more
    /// segments count than have been dealt with.
    pub open spec fn wf(self) -> bool {
        &&& 0 <= self.segment <= self.positions.len()
        &&& self.phase is Done <==> self.segment == self.positions.len()
        &&& self.accepted.len() <= self.segment
    }
}

impl View for SampledAnalysis {
    type V = Sampling;

    closed spec fn view(&self) -> Sampling {
        Sampling {
            positions: self.positions@,
            sample_rate: self.sample_rate,
            channels: self.channels,
            segment: self.segment as int,
            decoded: self.decoded,
            phase: self.phase,
            accepted: self.accepted@,
        }
    }
}

impl SampledAnalysis {
    /// An analysis of the segments that start at `positions`, of a stream
    /// with the given rate and channel count.
    pub fn new(positions: Vec<i64>, sample_rate: u32, channels: u16) -> (analysis: SampledAnalysis)
        ensures
            analysis@ == (Sampling {
                positions: positions@,
                sample_rate,
                channels,
                segment: 0,
                decoded: 0,
                phase: Phase::Seeking,
                accepted: Seq::<i64>::empty(),
            }).at_segment(0),
            analysis@.wf(),
    {
        let phase = if positions.len() > 0 {
            Phase::Seeking
        } else {
            Phase::Done
        };
        SampledAnalysis {
            positions,
            sample_rate,
            channels,
            segment: 0,
            decoded: 0,
            phase,
            accepted: Vec::new(),
        }
    }

    /// Plans the analysis of a track of the given length: `None` where the
    /// track is measured in full, else an analysis of segments drawn one from
    /// each zone of the track.
    pub fn plan(duration_ms: Option<i64>, sample_rate: u32, channels: u16) -> (planned: Option<
        SampledAnalysis,
    >)
        ensures
            planned is Some <==> is_sampled(
                match duration_ms {
                    Some(d) => d as int,
                    None => 0,
                },
            ),
            planned matches Some(analysis) ==> {
                &&& analysis@.wf()
                &&& analysis@.phase is Seeking
                &&& analysis@.segment == 0
                &&& analysis@.decoded == 0
                &&& analysis@.accepted.len() == 0
                &&& analysis@.sample_rate == sample_rate
                &&& analysis@.channels == channels
                &&& analysis@.positions.len() == NUM_SEGMENTS
                &&& forall|i: int|
                    0 <= i < NUM_SEGMENTS ==> zone_start(duration_ms->Some_0 as int, i)
                        <= #[trigger] analysis@.positions[i] < zone_start(
                        duration_ms->Some_0 as int,
                        i + 1,
                    )
            },
    {
        match plan_segments(duration_ms) {
            Some(positions) => Some(SampledAnalysis::new(positions, sample_rate, channels)),
            None => None,
        }
    }

    /// What the caller is to do now.
    pub fn action(&self) -> (action: SamplingAction)
        requires
            self@.wf(),
        ensures
            action == self@.action(),
    {
        match self.phase {
            Phase::Seeking => SamplingAction::Seek(self.positions[self.segment]),
            Phase::Decoding => SamplingAction::Decode,
            Phase::Measuring => SamplingAction::Measure,
            Phase::Done => SamplingAction::Finish,
        }
    }

    /// Number of segments whose readings count so far.
    pub fn valid_segments(&self) -> (count: usize)
        ensures
            count == self@.accepted.len(),
    {
        self.accepted.len()
    }

    /// The readings that count so far, in thousandths of a LUFS.
    pub fn accepted_levels(&self) -> (levels: &Vec<i64>)
        ensures
            levels@ == self@.accepted,
    {
        &self.accepted
    }

    /// Begins the segment after the one in hand.
    fn next_segment(&mut self)
        requires
            0 <= old(self)@.segment < old(self)@.positions.len(),
            old(self)@.accepted.len() <= old(self)@.segment + 1,
        ensures
            final(self)@ == old(self)@.at_next_segment(),
            final(self)@.wf(),
    {
        let count = self.positions.len();
        self.segment = self.segment + 1;
        self.decoded = 0;
        self.phase = if self.segment < count {
            Phase::Seeking
        } else {
            Phase::Done
        };
    }

    /// Ends the decoding of the segment in hand.
    fn end_decoding(&mut self)
        requires
            old(self)@.wf(),
            !(old(self)@.phase is Done),
        ensures
            final(self)@ == old(self)@.after_decoding(),
            final(self)@.wf(),
    {
        if has_enough_audio(self.decoded, self.sample_rate, self.channels) {
            self.phase = Phase::Measuring;
        } else {
            self.next_segment();
        }
    }

    /// Goes on decoding, or ends it where the segment is full.
    fn go_on_decoding(&mut self)
        requires
            old(self)@.wf(),
            !(old(self)@.phase is Done),
        ensures
            final(self)@ == old(self)@.decoding_on(),
            final(self)@.wf(),
    {
        if self.decoded < segment_sample_target(self.sample_rate, self.channels) {
            self.phase = Phase::Decoding;
        } else {
            self.end_decoding();
        }
    }

    /// Takes note of what came of the caller's last step and says what to do
    /// next.  A failed seek passes its segment over; a packet that cannot be
    /// decoded is skipped; a segment cut short by the end of the stream is
    /// measured if enough of it was decoded; a reading counts if it is finite
    /// and above the silence floor.
    pub fn step(&mut self, event: SamplingEvent) -> (action: SamplingAction)
        requires
            old(self)@.wf(),
        ensures
            final(self)@ == old(self)@.after(event),
            final(self)@.wf(),
            action == final(self)@.action(),
    {
        match (self.phase, event) {
            (Phase::Seeking, SamplingEvent::SeekDone) => {
                self.go_on_decoding();
            },
            (Phase::Seeking, SamplingEvent::SeekFailed) => {
                self.next_segment();
            },
            (Phase::Decoding, SamplingEvent::Chunk(samples)) => {
                let total: u128 = self.decoded as u128 + samples as u128;
                self.decoded = if total > u64::MAX as u128 {
                    u64::MAX
                } else {
                    total as u64
                };
                self.go_on_decoding();
            },
            (Phase::Decoding, SamplingEvent::EndOfStream) => {
                self.end_decoding();
            },
            (Phase::Measuring, SamplingEvent::Measured(level)) => {
                if segment_is_valid(self.decoded, self.sample_rate, self.channels, level) {
                    match level {
                        Some(reading) => {
                            self.accepted.push(reading);
                        },
                        None => {},
                    }
                }
                self.next_segment();
            },
            _ => {},
        }
        self.action()
    }

    /// The outcome of the analysis, where the segments that count combine to
    /// `combined_mlufs` and the highest peak seen was `peak_mdb`.  The
    /// analysis fails only if no segment counts.
    pub fn finish(&self, combined_mlufs: i64, peak_mdb: i64) -> (result: Result<
        LoudnessResult,
        LoudnessError,
    >)
        ensures
            self@.accepted.len() == 0 ==> result == Err::<LoudnessResult, LoudnessError>(
                LoudnessError::NoValidSegments,
            ),
            self@.accepted.len() > 0 ==> result == Ok::<LoudnessResult, LoudnessError>(
                LoudnessResult {
                    integrated_mlufs: combined_mlufs,
                    loudness_range_mlu: 0,
                    true_peak_mdb: peak_mdb,
                    normalization_gain_mdb: gain_for(combined_mlufs as int, peak_mdb as int) as i32,
                },
            ),
    {
        sampled_result(self.accepted.len(), combined_mlufs, peak_mdb)
    }
}

/// Segments are dealt with in order and each only once: no event takes the
/// analysis back to an earlier segment or takes a reading away, and an
/// analysis that is done stays done.
pub proof fn segments_are_passed_in_order(s: Sampling, event: SamplingEvent)
    requires
        s.wf(),
    ensures
        s.after(event).wf(),
        s.segment <= s.after(event).segment <= s.segment + 1,
        s.accepted.len() <= s.after(event).accepted.len() <= s.accepted.len() + 1,
        s.after(event).accepted.subrange(0, s.accepted.len() as int) == s.accepted,
        s.phase is Done ==> s.after(event) == s,
        s.after(event).positions == s.positions,
{
    assert(s.after(event).accepted.subrange(0, s.accepted.len() as int) =~= s.accepted);
}

/// A reading enters the result only if enough of its segment was decoded and
/// it lies above the silence floor.
pub proof fn only_valid_readings_count(s: Sampling, event: SamplingEvent)
    requires
        s.wf(),
        s.after(event).accepted.len() == s.accepted.len() + 1,
    ensures
        s.phase is Measuring,
        event is Measured,
        segment_counts(s.decoded, s.sample_rate, s.channels, event->Measured_0),
        s.after(event).accepted.last() == event->Measured_0->Some_0,
{
}

} // verus!
