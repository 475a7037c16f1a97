//! Loudness normalisation rules.
//!
//! The loudness meter itself works on floating-point samples and lives with
//! the caller.  What is decided here is where a long track is sampled, which
//! measurements count, and the gain that follows from a measurement.  Levels
//! are integers in thousandths of a unit: of a LUFS for loudness, of a decibel
//! for peaks and gains.

use rand::Rng;
use vstd::prelude::*;

verus! {

/// Loudness that normalisation aims for: -14 LUFS.
pub const TARGET_LOUDNESS_MLUFS: i64 = -14_000;

/// Largest boost that normalisation applies: +12 dB.
pub const MAX_GAIN_MDB: i32 = 12_000;

/// Largest cut that normalisation applies: -12 dB.
pub const MIN_GAIN_MDB: i32 = -12_000;

/// Tracks shorter than this are always measured in full.
pub const SAMPLING_THRESHOLD_MS: i64 = 30_000;

/// Length of one sampled segment.
pub const SEGMENT_DURATION_MS: i64 = 8_000;

/// Number of segments sampled from a long track.
pub const NUM_SEGMENTS: usize = 5;

/// Stretch at either end of a track that sampling stays out of.
pub const MARGIN_MS: i64 = 5_000;

/// Shortest stretch of audio from which a segment's loudness is accepted.
pub const MIN_SEGMENT_MS: u64 = 400;

/// Segments at or below this loudness are taken for silence: -70 LUFS.
pub const SILENCE_FLOOR_MLUFS: i64 = -70_000;

/// Peak level recorded for a track without a single non-zero sample: -96 dB.
pub const SILENT_PEAK_MDB: i64 = -96_000;

/// Outcome of a loudness analysis.
#[derive(Clone, Copy, Debug, PartialEq, Eq, Structural)]
pub struct LoudnessResult {
    /// Integrated loudness, in thousandths of a LUFS.
    pub integrated_mlufs: i64,
    /// Loudness range, in thousandths of a LU; zero where it is not measured.
    pub loudness_range_mlu: i64,
    /// Highest sample peak, in thousandths of a decibel.
    pub true_peak_mdb: i64,
    /// Gain that brings the track to the target loudness without clipping.
    pub normalization_gain_mdb: i32,
}

/// Why an analysis gave no result.
#[derive(Clone, Copy, Debug, PartialEq, Eq, Structural)]
pub enum LoudnessError {
    /// Not one segment of a sampled analysis yielded a usable measurement.
    NoValidSegments,
}

/// How a track is measured.
#[derive(Clone, Copy, Debug, PartialEq, Eq, Structural)]
pub enum AnalysisMode {
    /// Decode and measure the whole track.
    Full,
    /// Measure `NUM_SEGMENTS` segments spread over the track.
    Sampled,
}

/// Gain that would bring a track of the given loudness to the target.
pub open spec fn raw_gain(integrated_mlufs: int) -> int {
    TARGET_LOUDNESS_MLUFS - integrated_mlufs
}

/// Boost that a track with the given peak can take before it clips.
pub open spec fn peak_headroom(peak_mdb: int) -> int {
    -peak_mdb
}

/// The normalisation gain: the raw gain, held to the peak headroom, then to
/// `MIN_GAIN_MDB..=MAX_GAIN_MDB`.
pub open spec fn gain_for(integrated_mlufs: int, peak_mdb: int) -> int {
    let raw = raw_gain(integrated_mlufs);
    let headroom = peak_headroom(peak_mdb);
    let held = if raw <= headroom {
        raw
    } else {
        headroom
    };
    if held < MIN_GAIN_MDB {
        MIN_GAIN_MDB as int
    } else if held > MAX_GAIN_MDB {
        MAX_GAIN_MDB as int
    } else {
        held
    }
}

/// Length of track that segment starts may fall in.
pub open spec fn usable_duration(duration_ms: int) -> int {
    duration_ms - 2 * MARGIN_MS - SEGMENT_DURATION_MS
}

/// Whether a track of this length is sampled rather than measured in full.
pub open spec fn is_sampled(duration_ms: int) -> bool {
    duration_ms >= SAMPLING_THRESHOLD_MS && usable_duration(duration_ms) > 0
}

/// Width of each of the zones that a sampled track is divided into.
pub open spec fn zone_size(duration_ms: int) -> int {
    usable_duration(duration_ms) / (NUM_SEGMENTS as int)
}

/// First millisecond of zone `index`.
pub open spec fn zone_start(duration_ms: int, index: int) -> int {
    MARGIN_MS + index * zone_size(duration_ms)
}

/// Interleaved samples in `ms` milliseconds of a stream, rounded down.
pub open spec fn samples_in(ms: int, sample_rate: u32, channels: u16) -> int {
    sample_rate * channels * ms / 1000
}

/// Whether enough of a segment was decoded for its loudness to be measured.
pub open spec fn enough_audio(samples_decoded: u64, sample_rate: u32, channels: u16) -> bool {
    samples_decoded >= samples_in(MIN_SEGMENT_MS as int, sample_rate, channels)
}

/// Whether what was measured of a segment counts.
pub open spec fn segment_counts(
    samples_decoded: u64,
    sample_rate: u32,
    channels: u16,
    loudness_mlufs: Option<i64>,
) -> bool {
    &&& enough_audio(samples_decoded, sample_rate, channels)
    &&& loudness_mlufs matches Some(level) && level > SILENCE_FLOOR_MLUFS
}

/// Magnitude of a sample given as the bit pattern of a 32-bit float: the
/// pattern without its sign.  Among numbers, a larger pattern is a larger
/// magnitude.
pub open spec fn magnitude(bits: u32) -> u32 {
    bits & 0x7fff_ffff
}

/// Whether a bit pattern is a number, finite or infinite.
pub open spec fn is_number(bits: u32) -> bool {
    magnitude(bits) <= 0x7f80_0000
}

/// The largest magnitude among `start` and the numbers in `samples`.
pub open spec fn peak_of(samples: Seq<u32>, start: u32) -> u32
    decreases samples.len(),
{
    if samples.len() == 0 {
        start
    } else {
        let before = peak_of(samples.drop_last(), start);
        if is_number(samples.last()) && magnitude(samples.last()) > before {
            magnitude(samples.last())
        } else {
            before
        }
    }
}

/// `Rng::gen_range` on the generator of `rand::thread_rng`: some value of
/// the half-open range.  The call panics on an empty range, which is ruled
/// out.  Nothing more is known of the value: two calls on one range may
/// differ.  The generator is seeded from the operating system when a thread
/// first uses it, and panics if that fails.
#[verifier::external_body]
fn pick_in_range(low: i64, high: i64) -> (picked: i64)
    requires
        low < high,
    ensures
        low <= picked < high,
{
    rand::thread_rng().gen_range(low..high)
}

/// The gain, in thousandths of a decibel, that normalisation asks for before
/// peak and limits are considered.
pub fn raw_gain_mdb(integrated_mlufs: i64) -> (gain: i128)
    ensures
        gain == raw_gain(integrated_mlufs as int),
{
    TARGET_LOUDNESS_MLUFS as i128 - integrated_mlufs as i128
}

/// The normalisation gain for a track of the given integrated loudness and
/// sample peak.
pub fn normalization_gain(integrated_mlufs: i64, peak_mdb: i64) -> (gain: i32)
    ensures
        gain == gain_for(integrated_mlufs as int, peak_mdb as int),
        MIN_GAIN_MDB <= gain <= MAX_GAIN_MDB,
{
    let raw: i128 = raw_gain_mdb(integrated_mlufs);
    let headroom: i128 = -(peak_mdb as i128);
    let held: i128 = if raw <= headroom {
        raw
    } else {
        headroom
    };
    if held < MIN_GAIN_MDB as i128 {
        MIN_GAIN_MDB
    } else if held > MAX_GAIN_MDB as i128 {
        MAX_GAIN_MDB
    } else {
        held as i32
    }
}

/// The result of an analysis that measured `integrated_mlufs` with a sample
/// peak of `peak_mdb`.  The loudness range is not measured and reported as zero.
pub fn loudness_result(integrated_mlufs: i64, peak_mdb: i64) -> (result: LoudnessResult)
    ensures
        result == (LoudnessResult {
            integrated_mlufs,
            loudness_range_mlu: 0,
            true_peak_mdb: peak_mdb,
            normalization_gain_mdb: gain_for(integrated_mlufs as int, peak_mdb as int) as i32,
        }),
{
    LoudnessResult {
        integrated_mlufs,
        loudness_range_mlu: 0,
        true_peak_mdb: peak_mdb,
        normalization_gain_mdb: normalization_gain(integrated_mlufs, peak_mdb),
    }
}

/// The result of a sampled analysis in which `valid_segments` segments
/// counted and combined to `combined_mlufs`.  The analysis fails only when no
/// segment counted at all.
pub fn sampled_result(valid_segments: usize, combined_mlufs: i64, peak_mdb: i64) -> (result: Result<
    LoudnessResult,
    LoudnessError,
>)
    ensures
        valid_segments == 0 ==> result == Err::<LoudnessResult, LoudnessError>(
            LoudnessError::NoValidSegments,
        ),
        valid_segments > 0 ==> result == Ok::<LoudnessResult, LoudnessError>(
            LoudnessResult {
                integrated_mlufs: combined_mlufs,
                loudness_range_mlu: 0,
                true_peak_mdb: peak_mdb,
                normalization_gain_mdb: gain_for(combined_mlufs as int, peak_mdb as int) as i32,
            },
        ),
{
    if valid_segments == 0 {
        Err(LoudnessError::NoValidSegments)
    } else {
        Ok(loudness_result(combined_mlufs, peak_mdb))
    }
}

/// How a track is measured: sampled when its length is known and at least
/// `SAMPLING_THRESHOLD_MS`, in full otherwise.
pub fn analysis_mode(duration_ms: Option<i64>) -> (mode: AnalysisMode)
    ensures
        mode == (if is_sampled(
            match duration_ms {
                Some(d) => d as int,
                None => 0,
            },
        ) {
            AnalysisMode::Sampled
        } else {
            AnalysisMode::Full
        }),
{
    let duration: i64 = match duration_ms {
        Some(d) => d,
        None => 0,
    };
    if duration < SAMPLING_THRESHOLD_MS {
        return AnalysisMode::Full;
    }
    let usable: i64 = duration - 2 * MARGIN_MS - SEGMENT_DURATION_MS;
    if usable <= 0 {
        AnalysisMode::Full
    } else {
        AnalysisMode::Sampled
    }
}

/// The zone from which the start of segment `index` is drawn, as a half-open
/// range of milliseconds.
pub fn segment_zone(duration_ms: i64, index: usize) -> (zone: (i64, i64))
    requires
        is_sampled(duration_ms as int),
        index < NUM_SEGMENTS,
    ensures
        zone.0 == zone_start(duration_ms as int, index as int),
        zone.1 == zone_start(duration_ms as int, index + 1),
        zone.0 < zone.1,
        MARGIN_MS <= zone.0,
        zone.1 + SEGMENT_DURATION_MS + MARGIN_MS <= duration_ms,
{
    let usable: i64 = duration_ms - 2 * MARGIN_MS - SEGMENT_DURATION_MS;
    let size: i64 = usable / 5;
    assert(0 <= index * size && (index + 1) * size <= 5 * size && index * size + size == (index
        + 1) * size) by (nonlinear_arith)
        requires
            0 <= index < 5,
            0 <= size,
    ;
    let start: i64 = MARGIN_MS + (index as i64) * size;
    let latest: i64 = duration_ms - SEGMENT_DURATION_MS - MARGIN_MS;
    let end: i64 = start + size;
    if end < latest {
        (start, end)
    } else {
        (start, latest)
    }
}

/// Draws the start of each of the `NUM_SEGMENTS` segments of a sampled
/// analysis, one from each zone.  Which millisecond of a zone is drawn is left
/// to chance; whatever is drawn, the starts lie in their zones, ascend without
/// being sorted, and every segment ends before the closing margin of the track.
pub fn choose_segment_positions(duration_ms: i64) -> (positions: Vec<i64>)
    requires
        is_sampled(duration_ms as int),
    ensures
        positions@.len() == NUM_SEGMENTS,
        forall|i: int|
            0 <= i < NUM_SEGMENTS ==> zone_start(duration_ms as int, i) <= #[trigger] positions@[i]
                < zone_start(duration_ms as int, i + 1),
        forall|i: int, j: int| 0 <= i < j < NUM_SEGMENTS ==> positions@[i] < positions@[j],
        forall|i: int|
            0 <= i < NUM_SEGMENTS ==> MARGIN_MS <= #[trigger] positions@[i] && positions@[i]
                + SEGMENT_DURATION_MS + MARGIN_MS <= duration_ms,
{
    let mut positions: Vec<i64> = Vec::with_capacity(NUM_SEGMENTS);
    let mut index: usize = 0;
    while index < NUM_SEGMENTS
        invariant
            is_sampled(duration_ms as int),
            index <= NUM_SEGMENTS,
            positions@.len() == index,
            forall|i: int|
                0 <= i < index ==> zone_start(duration_ms as int, i) <= #[trigger] positions@[i]
                    < zone_start(duration_ms as int, i + 1),
            forall|i: int|
                0 <= i < index ==> MARGIN_MS <= #[trigger] positions@[i] && positions@[i]
                    + SEGMENT_DURATION_MS + MARGIN_MS <= duration_ms,
        decreases NUM_SEGMENTS - index,
    {
        let zone = segment_zone(duration_ms, index);
        let position = pick_in_range(zone.0, zone.1);
        positions.push(position);
        index = index + 1;
    }
    proof {
        zones_ascend(duration_ms as int);
    }
    positions
}

/// Where to sample a track of the given length, if its length is known:
/// the starts of its segments, or `None` where the track is measured in full.
pub fn plan_segments(duration_ms: Option<i64>) -> (plan: Option<Vec<i64>>)
    ensures
        plan is Some <==> is_sampled(
            match duration_ms {
                Some(d) => d as int,
                None => 0,
            },
        ),
        plan matches Some(positions) ==> {
            &&& duration_ms is Some
            &&& positions@.len() == NUM_SEGMENTS
            &&& forall|i: int|
                0 <= i < NUM_SEGMENTS ==> zone_start(duration_ms->Some_0 as int, i)
                    <= #[trigger] positions@[i] < zone_start(duration_ms->Some_0 as int, i + 1)
            &&& forall|i: int, j: int| 0 <= i < j < NUM_SEGMENTS ==> positions@[i] < positions@[j]
        },
{
    match analysis_mode(duration_ms) {
        AnalysisMode::Full => None,
        AnalysisMode::Sampled => {
            match duration_ms {
                Some(d) => Some(choose_segment_positions(d)),
                None => None,
            }
        },
    }
}

/// Updates the running sample peak with a chunk of samples.  Samples and
/// peak are bit patterns of 32-bit floats; the peak is the largest magnitude
/// seen, and patterns that are no numbers are passed over.
pub fn track_peak(samples: &[u32], peak_bits: u32) -> (peak: u32)
    ensures
        peak == peak_of(samples@, peak_bits),
{
    let mut peak: u32 = peak_bits;
    let mut i: usize = 0;
    while i < samples.len()
        invariant
            i <= samples@.len(),
            peak == peak_of(samples@.subrange(0, i as int), peak_bits),
        decreases samples@.len() - i,
    {
        proof {
            let upto = samples@.subrange(0, i + 1);
            assert(upto.drop_last() =~= samples@.subrange(0, i as int));
            assert(upto.last() == samples@[i as int]);
        }
        let magnitude: u32 = samples[i] & 0x7fff_ffff;
        if magnitude <= 0x7f80_0000 && magnitude > peak {
            peak = magnitude;
        }
        i = i + 1;
    }
    proof {
        assert(samples@.subrange(0, samples@.len() as int) =~= samples@);
    }
    peak
}

/// The peak level to record: `measured_mdb`, the level of the peak sample,
/// or `SILENT_PEAK_MDB` where the peak is zero and has no level.
pub fn peak_level(peak_bits: u32, measured_mdb: i64) -> (level: i64)
    ensures
        level == (if peak_bits == 0 {
            SILENT_PEAK_MDB
        } else {
            measured_mdb
        }),
{
    if peak_bits == 0 {
        SILENT_PEAK_MDB
    } else {
        measured_mdb
    }
}

/// Interleaved samples to decode for one segment.
pub fn segment_sample_target(sample_rate: u32, channels: u16) -> (samples: u64)
    ensures
        samples == samples_in(SEGMENT_DURATION_MS as int, sample_rate, channels),
{
    samples_for(SEGMENT_DURATION_MS as u64, sample_rate, channels)
}

/// Interleaved samples in `ms` milliseconds, for spans of at most a minute.
fn samples_for(ms: u64, sample_rate: u32, channels: u16) -> (samples: u64)
    requires
        ms <= 60_000,
    ensures
        samples == samples_in(ms as int, sample_rate, channels),
{
    assert(0 <= (sample_rate as int) * (channels as int) <= 0xffff_ffff * 0xffff)
        by (nonlinear_arith)
        requires
            0 <= sample_rate <= 0xffff_ffff,
            0 <= channels <= 0xffff,
    ;
    let per_second: u64 = (sample_rate as u64) * (channels as u64);
    assert(0 <= (per_second as int) * (ms as int) <= 0xffff_ffff * 0xffff * 60_000)
        by (nonlinear_arith)
        requires
            0 <= per_second <= 0xffff_ffff * 0xffff,
            0 <= ms <= 60_000,
    ;
    per_second * ms / 1000
}

/// Whether enough of a segment was decoded for its loudness to be measured:
/// at least `MIN_SEGMENT_MS` of audio.
pub fn has_enough_audio(samples_decoded: u64, sample_rate: u32, channels: u16) -> (enough: bool)
    ensures
        enough == enough_audio(samples_decoded, sample_rate, channels),
{
    samples_decoded >= samples_for(MIN_SEGMENT_MS, sample_rate, channels)
}

/// Whether a segment's measurement enters the combined loudness: enough audio
/// was decoded, the meter gave a finite level (`None` where it did not), and
/// the level is above the silence floor.
pub fn segment_is_valid(
    samples_decoded: u64,
    sample_rate: u32,
    channels: u16,
    loudness_mlufs: Option<i64>,
) -> (valid: bool)
    ensures
        valid == segment_counts(samples_decoded, sample_rate, channels, loudness_mlufs),
{
    if !has_enough_audio(samples_decoded, sample_rate, channels) {
        return false;
    }
    match loudness_mlufs {
        Some(level) => level > SILENCE_FLOOR_MLUFS,
        None => false,
    }
}

/// Zones follow one another without overlap, so a start drawn from an earlier
/// zone lies before one drawn from a later zone.
pub proof fn zones_ascend(duration_ms: int)
    requires
        is_sampled(duration_ms),
    ensures
        zone_size(duration_ms) > 0,
        forall|i: int, j: int|
            0 <= i < j ==> #[trigger] zone_start(duration_ms, i + 1) <= #[trigger] zone_start(
                duration_ms,
                j,
            ),
{
    let size = zone_size(duration_ms);
    assert forall|i: int, j: int| 0 <= i < j implies #[trigger] zone_start(duration_ms, i + 1)
        <= #[trigger] zone_start(duration_ms, j) by {
        assert((i + 1) * size <= j * size) by (nonlinear_arith)
            requires
                i + 1 <= j,
                size > 0,
        ;
    }
}

/// When the peak leaves room for it, the gain is the distance from the
/// measured loudness to the target, limited to `MIN_GAIN_MDB..=MAX_GAIN_MDB`;
/// in no case does the gain lift the peak above full scale unless the lower
/// limit forces it.
pub proof fn gain_meets_target_within_headroom(integrated_mlufs: int, peak_mdb: int)
    ensures
        MIN_GAIN_MDB <= gain_for(integrated_mlufs, peak_mdb) <= MAX_GAIN_MDB,
        raw_gain(integrated_mlufs) <= peak_headroom(peak_mdb) ==> gain_for(
            integrated_mlufs,
            peak_mdb,
        ) == (if raw_gain(integrated_mlufs) < MIN_GAIN_MDB {
            MIN_GAIN_MDB as int
        } else if raw_gain(integrated_mlufs) > MAX_GAIN_MDB {
            MAX_GAIN_MDB as int
        } else {
            raw_gain(integrated_mlufs)
        }),
        peak_headroom(peak_mdb) >= MIN_GAIN_MDB ==> peak_mdb + gain_for(integrated_mlufs, peak_mdb)
            <= 0,
{
}

/// The running peak never falls, is never exceeded by a number among the
/// samples it has seen, and is itself the start value or one of their
/// magnitudes.
pub proof fn peak_is_largest_magnitude(samples: Seq<u32>, start: u32)
    ensures
        start <= peak_of(samples, start),
        forall|i: int|
            0 <= i < samples.len() && is_number(#[trigger] samples[i]) ==> magnitude(samples[i])
                <= peak_of(samples, start),
        peak_of(samples, start) == start || exists|i: int|
            0 <= i < samples.len() && is_number(#[trigger] samples[i]) && peak_of(samples, start)
                == magnitude(samples[i]),
    decreases samples.len(),
{
    if samples.len() > 0 {
        let rest = samples.drop_last();
        peak_is_largest_magnitude(rest, start);
        assert forall|i: int| 0 <= i < samples.len() && is_number(#[trigger] samples[i]) implies magnitude(
            samples[i],
        ) <= peak_of(samples, start) by {
            if i < rest.len() {
                assert(rest[i] == samples[i]);
            }
        }
        if peak_of(samples, start) != start {
            if peak_of(samples, start) == peak_of(rest, start) {
                let i = choose|i: int|
                    0 <= i < rest.len() && is_number(#[trigger] rest[i]) && peak_of(rest, start)
                        == magnitude(rest[i]);
                assert(samples[i] == rest[i]);
            } else {
                assert(samples[samples.len() - 1] == samples.last());
            }
        }
    }
}

} // verus!
