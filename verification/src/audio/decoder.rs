//! Decoding rules: which track is decoded, how its samples are scaled and
//! laid out, how times map to the stream, and how the packet loop reacts to
//! what the container and the codec report.
//!
//! Reading the container and running the codec is the caller's business; it
//! reports each outcome here as a plain value and is told what to do next.

use vstd::prelude::*;

verus! {

/// Sample rate assumed where the container does not tell.
pub const DEFAULT_SAMPLE_RATE: u32 = 44_100;

/// Channel count assumed where the container does not tell.
pub const DEFAULT_CHANNELS: usize = 2;

/// Why a file could not be opened for decoding, or decoding broke off.
#[derive(Clone, Copy, Debug, PartialEq, Eq, Structural)]
pub enum DecoderError {
    /// The file could not be opened or read.
    IoError,
    /// The container was not recognised, or no codec exists for the track.
    UnsupportedFormat,
    /// The container holds no track with a known codec.
    NoAudioTrack,
    /// Reading the next packet failed for good.
    ReadFailed,
    /// The codec failed in a way that skipping the packet cannot mend.
    DecodeFailed,
    /// The container could not seek.
    SeekFailed,
}

/// The sample formats a codec may hand out.
#[derive(Clone, Copy, Debug, PartialEq, Eq, Structural)]
pub enum SampleFormat {
    U8,
    U16,
    U24,
    U32,
    S8,
    S16,
    S24,
    S32,
    F32,
    F64,
}

/// What reading the next packet gave.
#[derive(Clone, Copy, Debug, PartialEq, Eq, Structural)]
pub enum PacketEvent {
    /// A packet of the given track.
    Packet { track_id: u32 },
    /// The stream ended.
    EndOfStream,
    /// The container asks for the codec to be reset.
    ResetRequired,
    /// Any other failure.
    Failed,
}

/// What the packet loop does after a read.
#[derive(Clone, Copy, Debug, PartialEq, Eq, Structural)]
pub enum ReadDecision {
    /// Hand the packet to the codec.
    Decode,
    /// Drop the packet and read the next one.
    Skip,
    /// Reset the codec, then read the next packet.
    Reset,
    /// Report the end of the stream.
    Finish,
    /// Report the failure.
    Fail(DecoderError),
}

/// What decoding a packet gave.
#[derive(Clone, Copy, Debug, PartialEq, Eq, Structural)]
pub enum DecodeEvent {
    /// A buffer of samples.
    Decoded,
    /// The packet was malformed.
    Malformed,
    /// Any other failure.
    Failed,
}

/// What the packet loop does after a decode.
#[derive(Clone, Copy, Debug, PartialEq, Eq, Structural)]
pub enum DecodeDecision {
    /// Convert the buffer and return it.
    Emit,
    /// Drop the packet and read the next one.
    Skip,
    /// Report the failure.
    Fail(DecoderError),
}

/// A point in time as the container's seek takes it: whole seconds and the
/// thousandths that go with them.
#[derive(Clone, Copy, Debug, PartialEq, Eq, Structural)]
pub struct SeekTime {
    pub seconds: u64,
    pub millis: i64,
}

/// The stream that a decoder session works on.
#[derive(Clone, Copy, Debug, PartialEq, Eq, Structural)]
pub struct AudioDecoder {
    track_id: u32,
    sample_rate: u32,
    channels: usize,
    duration_ms: Option<i64>,
}

/// Whether samples of this format are integers.
pub open spec fn is_integer_format(format: SampleFormat) -> bool {
    !(format is F32 || format is F64)
}

/// Whether the format's integers carry no sign.
pub open spec fn is_unsigned_format(format: SampleFormat) -> bool {
    format is U8 || format is U16 || format is U24 || format is U32
}

/// Half the number of values of an integer format: the divisor that scales
/// its samples to the unit range.
pub open spec fn full_scale(format: SampleFormat) -> int {
    match format {
        SampleFormat::U8 | SampleFormat::S8 => 0x80,
        SampleFormat::U16 | SampleFormat::S16 => 0x8000,
        SampleFormat::U24 | SampleFormat::S24 => 0x80_0000,
        SampleFormat::U32 | SampleFormat::S32 => 0x8000_0000,
        SampleFormat::F32 | SampleFormat::F64 => 1,
    }
}

/// Smallest raw value of an integer format.
pub open spec fn raw_min(format: SampleFormat) -> int {
    if is_unsigned_format(format) {
        0
    } else {
        -full_scale(format)
    }
}

/// Largest raw value of an integer format.
pub open spec fn raw_max(format: SampleFormat) -> int {
    if is_unsigned_format(format) {
        2 * full_scale(format) - 1
    } else {
        full_scale(format) - 1
    }
}

/// A raw sample moved so that silence is zero: unsigned formats give up their
/// midpoint, signed formats stay as they are.
pub open spec fn centred(format: SampleFormat, raw: int) -> int {
    if is_unsigned_format(format) {
        raw - full_scale(format)
    } else {
        raw
    }
}

/// Index of the first track whose codec is known.
pub open spec fn first_known(codec_is_null: Seq<bool>) -> Option<int>
    decreases codec_is_null.len(),
{
    if codec_is_null.len() == 0 {
        None
    } else if !codec_is_null[0] {
        Some(0)
    } else {
        match first_known(codec_is_null.drop_first()) {
            Some(i) => Some(i + 1),
            None => None,
        }
    }
}

/// Milliseconds that `units` ticks at `per_second` ticks a second amount to,
/// rounded down.  Without a rate, nothing lasts no time and anything lasts
/// for ever.
pub open spec fn millis_of(units: int, per_second: int) -> int {
    if per_second == 0 {
        if units == 0 {
            0
        } else {
            u64::MAX as int
        }
    } else {
        units * 1000 / per_second
    }
}

/// `x`, or `hi` where `x` is more than that.
pub open spec fn at_most(x: int, hi: int) -> int {
    if x > hi {
        hi
    } else {
        x
    }
}

/// Seconds and thousandths of a position in milliseconds.  Positions before
/// the start have no whole seconds.
pub open spec fn seek_time_of(position_ms: int) -> SeekTime {
    if position_ms >= 0 {
        SeekTime { seconds: (position_ms / 1000) as u64, millis: (position_ms % 1000) as i64 }
    } else {
        SeekTime { seconds: 0, millis: (-((-position_ms) % 1000)) as i64 }
    }
}

/// What the loop does after a read, for the track it decodes.
pub open spec fn read_decision(selected_track: u32, event: PacketEvent) -> ReadDecision {
    match event {
        PacketEvent::Packet { track_id } => if track_id == selected_track {
            ReadDecision::Decode
        } else {
            ReadDecision::Skip
        },
        PacketEvent::EndOfStream => ReadDecision::Finish,
        PacketEvent::ResetRequired => ReadDecision::Reset,
        PacketEvent::Failed => ReadDecision::Fail(DecoderError::ReadFailed),
    }
}

/// What the loop does after a decode.
pub open spec fn decode_decision(event: DecodeEvent) -> DecodeDecision {
    match event {
        DecodeEvent::Decoded => DecodeDecision::Emit,
        DecodeEvent::Malformed => DecodeDecision::Skip,
        DecodeEvent::Failed => DecodeDecision::Fail(DecoderError::DecodeFailed),
    }
}

/// Planar samples laid out frame by frame: sample `i` of the result is frame
/// `i / channels` of channel `i % channels`.
pub open spec fn interleaved<T>(planes: Seq<Seq<T>>, frames: nat) -> Seq<T> {
    if planes.len() == 0 {
        Seq::<T>::empty()
    } else {
        Seq::new(
            frames * planes.len(),
            |i: int| planes[i % (planes.len() as int)][i / (planes.len() as int)],
        )
    }
}

/// The planes of a buffer as sequences.
pub open spec fn planes_of<T>(planes: &[&[T]]) -> Seq<Seq<T>> {
    Seq::new(planes@.len(), |c: int| planes@[c]@)
}

/// The divisor that scales samples of `format` to the unit range.
pub fn format_full_scale(format: SampleFormat) -> (scale: i64)
    ensures
        scale == full_scale(format),
{
    match format {
        SampleFormat::U8 | SampleFormat::S8 => 0x80,
        SampleFormat::U16 | SampleFormat::S16 => 0x8000,
        SampleFormat::U24 | SampleFormat::S24 => 0x80_0000,
        SampleFormat::U32 | SampleFormat::S32 => 0x8000_0000,
        SampleFormat::F32 | SampleFormat::F64 => 1,
    }
}

/// The numerator of a sample's amplitude: the raw value, centred.  The
/// amplitude is this over `format_full_scale`.  Returns `None` for floating
/// formats, whose samples are amplitudes already, and for values that the
/// format cannot hold.
pub fn centre_sample(format: SampleFormat, raw: i64) -> (centre: Option<i64>)
    ensures
        centre is Some <==> is_integer_format(format) && raw_min(format) <= raw <= raw_max(format),
        centre matches Some(c) ==> c == centred(format, raw as int) && -full_scale(format) <= c
            < full_scale(format),
{
    let scale = format_full_scale(format);
    match format {
        SampleFormat::F32 | SampleFormat::F64 => None,
        SampleFormat::U8 | SampleFormat::U16 | SampleFormat::U24 | SampleFormat::U32 => {
            if 0 <= raw && raw < 2 * scale {
                Some(raw - scale)
            } else {
                None
            }
        },
        SampleFormat::S8 | SampleFormat::S16 | SampleFormat::S24 | SampleFormat::S32 => {
            if -scale <= raw && raw < scale {
                Some(raw)
            } else {
                None
            }
        },
    }
}

/// Index of the track to decode: the first whose codec is known.
pub fn select_track(codec_is_null: &[bool]) -> (selected: Result<usize, DecoderError>)
    ensures
        match selected {
            Ok(i) => first_known(codec_is_null@) == Some(i as int),
            Err(e) => e == DecoderError::NoAudioTrack && first_known(codec_is_null@) is None,
        },
        selected matches Ok(i) ==> i < codec_is_null@.len() && !codec_is_null@[i as int] && forall|
            j: int,
        | 0 <= j < i ==> codec_is_null@[j],
        selected is Err ==> forall|j: int| 0 <= j < codec_is_null@.len() ==> codec_is_null@[j],
{
    let mut i: usize = 0;
    while i < codec_is_null.len()
        invariant
            i <= codec_is_null@.len(),
            forall|j: int| 0 <= j < i ==> codec_is_null@[j],
        decreases codec_is_null@.len() - i,
    {
        if !codec_is_null[i] {
            proof {
                first_known_is_first(codec_is_null@, i as int);
            }
            return Ok(i);
        }
        i = i + 1;
    }
    proof {
        first_known_none(codec_is_null@);
    }
    Err(DecoderError::NoAudioTrack)
}

/// `first_known` finds index `i` when the codecs before it are null and its
/// own is not.
proof fn first_known_is_first(codec_is_null: Seq<bool>, i: int)
    requires
        0 <= i < codec_is_null.len(),
        !codec_is_null[i],
        forall|j: int| 0 <= j < i ==> codec_is_null[j],
    ensures
        first_known(codec_is_null) == Some(i),
    decreases i,
{
    if i > 0 {
        let rest = codec_is_null.drop_first();
        assert forall|j: int| 0 <= j < i - 1 implies rest[j] by {
            assert(rest[j] == codec_is_null[j + 1]);
        }
        first_known_is_first(rest, i - 1);
    }
}

/// `first_known` finds nothing among null codecs.
proof fn first_known_none(codec_is_null: Seq<bool>)
    requires
        forall|j: int| 0 <= j < codec_is_null.len() ==> codec_is_null[j],
    ensures
        first_known(codec_is_null) is None,
    decreases codec_is_null.len(),
{
    if codec_is_null.len() > 0 {
        let rest = codec_is_null.drop_first();
        assert forall|j: int| 0 <= j < rest.len() implies rest[j] by {
            assert(rest[j] == codec_is_null[j + 1]);
        }
        first_known_none(rest);
    }
}

/// Milliseconds of `units` ticks at `per_second`, held to `limit`.
fn millis_within(units: u64, per_second: u32, limit: u64) -> (ms: u64)
    ensures
        ms == at_most(millis_of(units as int, per_second as int), limit as int),
{
    if per_second == 0 {
        return if units == 0 {
            0
        } else {
            limit
        };
    }
    let scaled: u128 = (units as u128) * 1000;
    let ms: u128 = scaled / (per_second as u128);
    if ms > limit as u128 {
        limit
    } else {
        ms as u64
    }
}

/// Where a seek landed, in milliseconds, from the timestamp the container
/// reports in units of the sample rate.
pub fn landing_position_ms(actual_ts: u64, sample_rate: u32) -> (ms: u64)
    ensures
        ms == at_most(millis_of(actual_ts as int, sample_rate as int), u64::MAX as int),
{
    millis_within(actual_ts, sample_rate, u64::MAX)
}

/// The time handed to the container for a seek to `position_ms`.
pub fn seek_time(position_ms: i64) -> (time: SeekTime)
    ensures
        time == seek_time_of(position_ms as int),
        -1000 < time.millis < 1000,
{
    if position_ms >= 0 {
        SeekTime { seconds: (position_ms / 1000) as u64, millis: position_ms % 1000 }
    } else {
        SeekTime { seconds: 0, millis: position_ms % 1000 }
    }
}

/// What the packet loop does after reading, for the track `selected_track`:
/// packets of other tracks are skipped, a reset request is honoured and the
/// read repeated, the end of the stream ends the loop, anything else is fatal.
pub fn after_read(selected_track: u32, event: PacketEvent) -> (decision: ReadDecision)
    ensures
        decision == read_decision(selected_track, event),
{
    match event {
        PacketEvent::Packet { track_id } => {
            if track_id == selected_track {
                ReadDecision::Decode
            } else {
                ReadDecision::Skip
            }
        },
        PacketEvent::EndOfStream => ReadDecision::Finish,
        PacketEvent::ResetRequired => ReadDecision::Reset,
        PacketEvent::Failed => ReadDecision::Fail(DecoderError::ReadFailed),
    }
}

/// What the packet loop does after decoding: a malformed packet is skipped
/// and decoding goes on, any other failure is fatal.
pub fn after_decode(event: DecodeEvent) -> (decision: DecodeDecision)
    ensures
        decision == decode_decision(event),
{
    match event {
        DecodeEvent::Decoded => DecodeDecision::Emit,
        DecodeEvent::Malformed => DecodeDecision::Skip,
        DecodeEvent::Failed => DecodeDecision::Fail(DecoderError::DecodeFailed),
    }
}

impl DecoderError {
    /// The error in words.
    pub fn message(&self) -> (text: &'static str)
        ensures
            text@ == (match *self {
                DecoderError::IoError => "Failed to open file"@,
                DecoderError::UnsupportedFormat => "Failed to probe file format"@,
                DecoderError::NoAudioTrack => "No audio track found"@,
                DecoderError::ReadFailed => "Failed to read packet"@,
                DecoderError::DecodeFailed => "Decode failed"@,
                DecoderError::SeekFailed => "Seek failed"@,
            }),
    {
        match self {
            DecoderError::IoError => "Failed to open file",
            DecoderError::UnsupportedFormat => "Failed to probe file format",
            DecoderError::NoAudioTrack => "No audio track found",
            DecoderError::ReadFailed => "Failed to read packet",
            DecoderError::DecodeFailed => "Decode failed",
            DecoderError::SeekFailed => "Seek failed",
        }
    }
}

impl AudioDecoder {
    /// Identifier of the track that is decoded.
    pub closed spec fn spec_track_id(&self) -> u32 {
        self.track_id
    }

    /// Sample rate of the stream, in Hz.
    pub closed spec fn spec_sample_rate(&self) -> u32 {
        self.sample_rate
    }

    /// Channel count of the stream.
    pub closed spec fn spec_channels(&self) -> usize {
        self.channels
    }

    /// Length of the stream in milliseconds, where the container tells.
    pub closed spec fn spec_duration_ms(&self) -> Option<i64> {
        self.duration_ms
    }

    /// Describes the stream of the selected track.  A missing sample rate or
    /// channel count is replaced by its default; the duration follows from
    /// the frame count where the container reports one.
    pub fn open(
        track_id: u32,
        sample_rate: Option<u32>,
        channels: Option<usize>,
        n_frames: Option<u64>,
    ) -> (decoder: AudioDecoder)
        ensures
            decoder.spec_track_id() == track_id,
            decoder.spec_sample_rate() == (match sample_rate {
                Some(rate) => rate,
                None => DEFAULT_SAMPLE_RATE,
            }),
            decoder.spec_channels() == (match channels {
                Some(count) => count,
                None => DEFAULT_CHANNELS,
            }),
            decoder.spec_duration_ms() == (match n_frames {
                Some(frames) => Some(
                    at_most(
                        millis_of(frames as int, decoder.spec_sample_rate() as int),
                        i64::MAX as int,
                    ) as i64,
                ),
                None => None,
            }),
    {
        let rate: u32 = match sample_rate {
            Some(rate) => rate,
            None => DEFAULT_SAMPLE_RATE,
        };
        let count: usize = match channels {
            Some(count) => count,
            None => DEFAULT_CHANNELS,
        };
        let duration_ms: Option<i64> = match n_frames {
            Some(frames) => Some(millis_within(frames, rate, 0x7fff_ffff_ffff_ffff) as i64),
            None => None,
        };
        AudioDecoder { track_id, sample_rate: rate, channels: count, duration_ms }
    }

    /// Identifier of the track that is decoded.
    pub fn track_id(&self) -> (id: u32)
        ensures
            id == self.spec_track_id(),
    {
        self.track_id
    }

    /// Sample rate of the stream, in Hz.
    pub fn sample_rate(&self) -> (rate: u32)
        ensures
            rate == self.spec_sample_rate(),
    {
        self.sample_rate
    }

    /// Channel count of the stream.
    pub fn channels(&self) -> (count: usize)
        ensures
            count == self.spec_channels(),
    {
        self.channels
    }

    /// Length of the stream in milliseconds, where the container tells.
    pub fn duration_ms(&self) -> (ms: Option<i64>)
        ensures
            ms == self.spec_duration_ms(),
    {
        self.duration_ms
    }

    /// What to do with what reading the next packet gave.
    pub fn decode_next(&self, event: PacketEvent) -> (decision: ReadDecision)
        ensures
            decision == read_decision(self.spec_track_id(), event),
    {
        after_read(self.track_id, event)
    }

    /// The time to seek the container to, for a target in milliseconds.
    pub fn seek(&self, position_ms: i64) -> (time: SeekTime)
        ensures
            time == seek_time_of(position_ms as int),
    {
        seek_time(position_ms)
    }

    /// Where a seek landed, in milliseconds.  Callers go on from here, not
    /// from the target they asked for.
    pub fn seek_landed(&self, actual_ts: u64) -> (ms: u64)
        ensures
            ms == at_most(
                millis_of(actual_ts as int, self.spec_sample_rate() as int),
                u64::MAX as int,
            ),
    {
        landing_position_ms(actual_ts, self.sample_rate)
    }

    /// Lays the first `frames` frames of planar samples out frame by frame.
    /// A buffer without channels or without frames gives nothing.
    pub fn interleave<T: Copy>(planes: &[&[T]], frames: usize) -> (samples: Vec<T>)
        requires
            frames * planes@.len() <= usize::MAX,
            forall|c: int| 0 <= c < planes@.len() ==> frames <= (#[trigger] planes@[c])@.len(),
        ensures
            samples@ == interleaved(planes_of(planes), frames as nat),
    {
        let channels = planes.len();
        let mut samples: Vec<T> = Vec::new();
        if channels == 0 || frames == 0 {
            proof {
                assert(frames * channels == 0) by (nonlinear_arith)
                    requires
                        channels == 0 || frames == 0,
                ;
                assert(samples@ =~= interleaved(planes_of(planes), frames as nat));
            }
            return samples;
        }
        let ghost model = planes_of(planes);
        let mut frame: usize = 0;
        while frame < frames
            invariant
                channels == planes@.len(),
                channels > 0,
                frame <= frames,
                model == planes_of(planes),
                frames * channels <= usize::MAX,
                forall|c: int| 0 <= c < planes@.len() ==> frames <= (#[trigger] planes@[c])@.len(),
                samples@.len() == frame * channels,
                forall|i: int|
                    0 <= i < samples@.len() ==> samples@[i] == model[i % (channels as int)][i / (
                    channels as int)],
            decreases frames - frame,
        {
            let mut ch: usize = 0;
            while ch < channels
                invariant
                    channels == planes@.len(),
                    channels > 0,
                    frame < frames,
                    ch <= channels,
                    model == planes_of(planes),
                    frames * channels <= usize::MAX,
                    forall|c: int|
                        0 <= c < planes@.len() ==> frames <= (#[trigger] planes@[c])@.len(),
                    samples@.len() == frame * channels + ch,
                    forall|i: int|
                        0 <= i < samples@.len() ==> samples@[i] == model[i % (channels as int)][i
                            / (channels as int)],
                decreases channels - ch,
            {
                let plane: &[T] = planes[ch];
                let value: T = plane[frame];
                proof {
                    let i = frame * channels + ch;
                    vstd::arithmetic::div_mod::lemma_fundamental_div_mod_converse(
                        i as int,
                        channels as int,
                        frame as int,
                        ch as int,
                    );
                    assert(model[ch as int][frame as int] == value);
                }
                samples.push(value);
                ch = ch + 1;
            }
            proof {
                assert(frame * channels + channels == (frame + 1) * channels) by (nonlinear_arith);
            }
            frame = frame + 1;
        }
        proof {
            assert(samples@ =~= interleaved(planes_of(planes), frames as nat));
        }
        samples
    }

    /// Lays the first `frames` frames of planar samples out frame by frame,
    /// converting each sample on the way.
    pub fn interleave_convert<T: Copy, U, F: Fn(T) -> U>(
        planes: &[&[T]],
        frames: usize,
        convert: F,
    ) -> (samples: Vec<U>)
        requires
            frames * planes@.len() <= usize::MAX,
            forall|c: int| 0 <= c < planes@.len() ==> frames <= (#[trigger] planes@[c])@.len(),
            forall|value: T| call_requires(convert, (value,)),
        ensures
            samples@.len() == interleaved(planes_of(planes), frames as nat).len(),
            forall|i: int|
                0 <= i < samples@.len() ==> call_ensures(
                    convert,
                    (interleaved(planes_of(planes), frames as nat)[i],),
                    #[trigger] samples@[i],
                ),
    {
        let channels = planes.len();
        let mut samples: Vec<U> = Vec::new();
        if channels == 0 || frames == 0 {
            proof {
                assert(frames * channels == 0) by (nonlinear_arith)
                    requires
                        channels == 0 || frames == 0,
                ;
            }
            return samples;
        }
        let ghost model = planes_of(planes);
        let mut frame: usize = 0;
        while frame < frames
            invariant
                channels == planes@.len(),
                channels > 0,
                frame <= frames,
                model == planes_of(planes),
                frames * channels <= usize::MAX,
                forall|c: int| 0 <= c < planes@.len() ==> frames <= (#[trigger] planes@[c])@.len(),
                forall|value: T| call_requires(convert, (value,)),
                samples@.len() == frame * channels,
                forall|i: int|
                    0 <= i < samples@.len() ==> call_ensures(
                        convert,
                        (model[i % (channels as int)][i / (channels as int)],),
                        #[trigger] samples@[i],
                    ),
            decreases frames - frame,
        {
            let mut ch: usize = 0;
            while ch < channels
                invariant
                    channels == planes@.len(),
                    channels > 0,
                    frame < frames,
                    ch <= channels,
                    model == planes_of(planes),
                    frames * channels <= usize::MAX,
                    forall|c: int|
                        0 <= c < planes@.len() ==> frames <= (#[trigger] planes@[c])@.len(),
                    forall|value: T| call_requires(convert, (value,)),
                    samples@.len() == frame * channels + ch,
                    forall|i: int|
                        0 <= i < samples@.len() ==> call_ensures(
                            convert,
                            (model[i % (channels as int)][i / (channels as int)],),
                            #[trigger] samples@[i],
                        ),
                decreases channels - ch,
            {
                let plane: &[T] = planes[ch];
                let value: T = plane[frame];
                proof {
                    let i = frame * channels + ch;
                    vstd::arithmetic::div_mod::lemma_fundamental_div_mod_converse(
                        i as int,
                        channels as int,
                        frame as int,
                        ch as int,
                    );
                    assert(model[ch as int][frame as int] == value);
                }
                let converted: U = convert(value);
                samples.push(converted);
                ch = ch + 1;
            }
            proof {
                assert(frame * channels + channels == (frame + 1) * channels) by (nonlinear_arith);
            }
            frame = frame + 1;
        }
        samples
    }
}

/// Every raw value of an integer format is centred to an amplitude in the
/// unit range: its numerator lies between minus the full scale and one step
/// below the full scale.  The format's smallest value maps to minus one
/// exactly, its largest to one quantisation step below plus one, and the
/// midpoint of an unsigned format maps to silence.
pub proof fn extremes_map_to_unit_range(format: SampleFormat, raw: int)
    requires
        is_integer_format(format),
        raw_min(format) <= raw <= raw_max(format),
    ensures
        -full_scale(format) <= centred(format, raw) <= full_scale(format) - 1,
        centred(format, raw_min(format)) == -full_scale(format),
        centred(format, raw_max(format)) == full_scale(format) - 1,
        is_unsigned_format(format) ==> centred(format, full_scale(format)) == 0,
        !is_unsigned_format(format) ==> centred(format, 0) == 0,
{
}

} // verus!
