//! Playback session state.
//!
//! A [`Player`] is the state shared by the threads that issue commands and the
//! thread that decodes.  Commands only record requests; the decoding loop asks
//! [`Player::next_action`] at the top of every turn what to do, performs it,
//! and reports back what came of it.  Levels are kept in thousandths of a
//! decibel, so that the volume in decibels and the gain applied can never
//! drift apart.

use vstd::prelude::*;

verus! {

/// Lowest user volume, in thousandths of a decibel.
pub const MIN_VOLUME_MDB: i32 = -60_000;

/// Highest user volume, in thousandths of a decibel.
pub const MAX_VOLUME_MDB: i32 = 15_000;

/// What the decoding loop does in one turn.
#[derive(Clone, Copy, Debug, PartialEq, Eq, Structural)]
pub enum LoopAction {
    /// Leave the loop: a stop was requested.
    Exit,
    /// Seek the decoder to this position in milliseconds, reset the resampler
    /// and clear the output buffer, then report with `seek_completed`.
    Seek(u64),
    /// Playback is paused: sleep briefly and ask again.
    Sleep,
    /// Decode the next chunk and hand it to the output.
    Decode,
}

/// A snapshot of the session for polling consumers.
#[derive(Clone, Debug)]
pub struct PlayerState {
    pub is_playing: bool,
    pub is_paused: bool,
    pub current_file: Option<String>,
    pub position_ms: u64,
    pub duration_ms: Option<u64>,
    pub volume_mdb: i32,
    pub normalization_enabled: bool,
    pub track_gain_mdb: i32,
}

/// The session state.
pub struct Player {
    is_playing: bool,
    is_paused: bool,
    should_stop: bool,
    track_ended: bool,
    seek_request: Option<u64>,
    current_file: Option<String>,
    samples_decoded: u64,
    sample_rate: u32,
    channels: u16,
    duration_ms: Option<u64>,
    volume_mdb: i32,
    track_gain_mdb: i32,
    normalization_enabled: bool,
}

/// The session state as contracts see it.
pub struct Session {
    pub is_playing: bool,
    pub is_paused: bool,
    pub should_stop: bool,
    pub track_ended: bool,
    pub seek_request: Option<u64>,
    pub current_file: Option<Seq<char>>,
    pub samples_decoded: u64,
    pub sample_rate: u32,
    pub channels: u16,
    pub duration_ms: Option<u64>,
    pub volume_mdb: i32,
    pub track_gain_mdb: i32,
    pub normalization_enabled: bool,
}

/// `x` limited to what a `u64` holds.
pub open spec fn saturate(x: int) -> u64 {
    if x < 0 {
        0
    } else if x > u64::MAX {
        u64::MAX
    } else {
        x as u64
    }
}

/// `x` limited to the range `lo..=hi`.
pub open spec fn clamp(x: int, lo: int, hi: int) -> int {
    if x < lo {
        lo
    } else if x > hi {
        hi
    } else {
        x
    }
}

/// Interleaved samples per second of a stream.
pub open spec fn samples_per_second(sample_rate: u32, channels: u16) -> int {
    sample_rate * channels
}

/// Milliseconds of audio that `samples` interleaved samples amount to, rounded
/// down; zero for a stream without a rate or without channels.
pub open spec fn position_of(samples: u64, sample_rate: u32, channels: u16) -> u64 {
    let per_second = samples_per_second(sample_rate, channels);
    if per_second == 0 {
        0
    } else {
        saturate(samples * 1000 / per_second)
    }
}

/// Interleaved samples that lie before `position_ms` of a stream, rounded down.
pub open spec fn samples_at(position_ms: u64, sample_rate: u32, channels: u16) -> u64 {
    saturate(position_ms * samples_per_second(sample_rate, channels) / 1000)
}

/// Gain applied to the output, in thousandths of a decibel: the user volume
/// plus, when normalisation is on, the track's gain; never above unity.  As
/// linear factors this is the product of the two gains, held to one.
pub open spec fn effective_gain(
    volume_mdb: i32,
    track_gain_mdb: i32,
    normalization_enabled: bool,
) -> int {
    let wanted = volume_mdb + if normalization_enabled {
        track_gain_mdb as int
    } else {
        0
    };
    if wanted > 0 {
        0
    } else {
        wanted
    }
}

impl Session {
    /// The position reported to consumers, in milliseconds.
    pub open spec fn position_ms(self) -> u64 {
        position_of(self.samples_decoded, self.sample_rate, self.channels)
    }

    /// A fresh session for `path` with the given track gain: playing, nothing
    /// pending, nothing decoded.  Volume and the normalisation switch carry over.
    pub open spec fn started(self, path: Seq<char>, track_gain_mdb: i32) -> Session {
        Session {
            is_playing: true,
            is_paused: false,
            should_stop: false,
            track_ended: false,
            seek_request: None,
            current_file: Some(path),
            samples_decoded: 0,
            sample_rate: 0,
            channels: 0,
            duration_ms: None,
            volume_mdb: self.volume_mdb,
            track_gain_mdb,
            normalization_enabled: self.normalization_enabled,
        }
    }

    /// After `pause`.
    pub open spec fn paused(self) -> Session {
        Session { is_paused: true, ..self }
    }

    /// After `resume`.
    pub open spec fn resumed(self) -> Session {
        Session { is_paused: false, ..self }
    }

    /// After `request_stop`: the loop is told to leave, and woken if paused.
    pub open spec fn stop_requested(self) -> Session {
        Session { should_stop: true, is_paused: false, ..self }
    }

    /// After `stop`: no session.  Volume, track gain and the normalisation
    /// switch are all that remains.
    pub open spec fn stopped(self) -> Session {
        Session {
            is_playing: false,
            is_paused: false,
            should_stop: false,
            track_ended: false,
            seek_request: None,
            current_file: None,
            samples_decoded: 0,
            sample_rate: 0,
            channels: 0,
            duration_ms: None,
            volume_mdb: self.volume_mdb,
            track_gain_mdb: self.track_gain_mdb,
            normalization_enabled: self.normalization_enabled,
        }
    }

    /// After `seek`: the newest target replaces any earlier one.
    pub open spec fn seek_requested(self, position_ms: u64) -> Session {
        Session { seek_request: Some(position_ms), ..self }
    }

    /// What the loop is told to do in the state `self`.
    pub open spec fn action(self) -> LoopAction {
        if self.should_stop {
            LoopAction::Exit
        } else if let Some(target) = self.seek_request {
            LoopAction::Seek(target)
        } else if self.is_paused {
            LoopAction::Sleep
        } else {
            LoopAction::Decode
        }
    }

    /// After `next_action`: a seek request, once handed out, is gone.
    pub open spec fn action_taken(self) -> Session {
        if !self.should_stop && self.seek_request is Some {
            Session { seek_request: None, ..self }
        } else {
            self
        }
    }

    /// After `stream_opened`.
    pub open spec fn opened(self, sample_rate: u32, channels: u16, duration_ms: Option<u64>) -> Session {
        Session { sample_rate, channels, duration_ms, ..self }
    }

    /// After `seek_completed`: the sample counter restarts from where the
    /// decoder actually landed.
    pub open spec fn sought(self, actual_ms: u64) -> Session {
        Session {
            samples_decoded: samples_at(actual_ms, self.sample_rate, self.channels),
            ..self
        }
    }

    /// After `chunk_decoded`.
    pub open spec fn advanced(self, samples: usize) -> Session {
        Session { samples_decoded: saturate(self.samples_decoded + samples), ..self }
    }

    /// After `session_ended`: the end is flagged and the session no longer plays.
    pub open spec fn ended(self) -> Session {
        Session { track_ended: true, is_playing: false, ..self }
    }

    /// After `has_track_ended`: the flag is consumed.
    pub open spec fn end_consumed(self) -> Session {
        Session { track_ended: false, ..self }
    }

    /// After `set_volume_db`.
    pub open spec fn with_volume(self, volume_mdb: i32) -> Session {
        Session {
            volume_mdb: clamp(volume_mdb as int, MIN_VOLUME_MDB as int, MAX_VOLUME_MDB as int) as i32,
            ..self
        }
    }

    /// The user volume lies in its range.
    pub open spec fn volume_in_range(self) -> bool {
        MIN_VOLUME_MDB <= self.volume_mdb <= MAX_VOLUME_MDB
    }
}

impl View for Player {
    type V = Session;

    closed spec fn view(&self) -> Session {
        Session {
            is_playing: self.is_playing,
            is_paused: self.is_paused,
            should_stop: self.should_stop,
            track_ended: self.track_ended,
            seek_request: self.seek_request,
            current_file: match self.current_file {
                Some(path) => Some(path@),
                None => None,
            },
            samples_decoded: self.samples_decoded,
            sample_rate: self.sample_rate,
            channels: self.channels,
            duration_ms: self.duration_ms,
            volume_mdb: self.volume_mdb,
            track_gain_mdb: self.track_gain_mdb,
            normalization_enabled: self.normalization_enabled,
        }
    }
}

/// Computes `samples_per_second`.
fn stream_rate(sample_rate: u32, channels: u16) -> (per_second: u128)
    ensures
        per_second == samples_per_second(sample_rate, channels),
        per_second <= 0xffff_ffff * 0xffff,
{
    assert(0 <= (sample_rate as int) * (channels as int) <= 0xffff_ffff * 0xffff)
        by (nonlinear_arith)
        requires
            0 <= sample_rate <= 0xffff_ffff,
            0 <= channels <= 0xffff,
    ;
    (sample_rate as u128) * (channels as u128)
}

/// Computes `position_of`.
pub fn position_from_samples(samples: u64, sample_rate: u32, channels: u16) -> (ms: u64)
    ensures
        ms == position_of(samples, sample_rate, channels),
{
    let per_second: u128 = stream_rate(sample_rate, channels);
    if per_second == 0 {
        return 0;
    }
    let scaled: u128 = (samples as u128) * 1000;
    let ms: u128 = scaled / per_second;
    if ms > u64::MAX as u128 {
        u64::MAX
    } else {
        ms as u64
    }
}

/// Computes `samples_at`.
pub fn samples_from_position(position_ms: u64, sample_rate: u32, channels: u16) -> (samples: u64)
    ensures
        samples == samples_at(position_ms, sample_rate, channels),
{
    let per_second: u128 = stream_rate(sample_rate, channels);
    assert((position_ms as int) * (per_second as int) <= 0xffff_ffff_ffff_ffff * (0xffff_ffff
        * 0xffff)) by (nonlinear_arith)
        requires
            0 <= position_ms <= 0xffff_ffff_ffff_ffff,
            0 <= per_second <= 0xffff_ffff * 0xffff,
    ;
    let scaled: u128 = (position_ms as u128) * per_second;
    let samples: u128 = scaled / 1000;
    if samples > u64::MAX as u128 {
        u64::MAX
    } else {
        samples as u64
    }
}

impl Player {
    /// An idle player at unity volume, with normalisation on and no track gain.
    pub fn new() -> (player: Player)
        ensures
            player@ == (Session {
                is_playing: false,
                is_paused: false,
                should_stop: false,
                track_ended: false,
                seek_request: None,
                current_file: None,
                samples_decoded: 0,
                sample_rate: 0,
                channels: 0,
                duration_ms: None,
                volume_mdb: 0,
                track_gain_mdb: 0,
                normalization_enabled: true,
            }),
            player@.volume_in_range(),
    {
        Player {
            is_playing: false,
            is_paused: false,
            should_stop: false,
            track_ended: false,
            seek_request: None,
            current_file: None,
            samples_decoded: 0,
            sample_rate: 0,
            channels: 0,
            duration_ms: None,
            volume_mdb: 0,
            track_gain_mdb: 0,
            normalization_enabled: true,
        }
    }

    /// Starts a session for `path` without a track gain.  Any earlier session
    /// must have been stopped; its state is overwritten.
    pub fn play(&mut self, path: String)
        ensures
            final(self)@ == old(self)@.started(path@, 0),
    {
        self.play_with_gain(path, 0);
    }

    /// Starts a session for `path` whose loudness is corrected by
    /// `track_gain_mdb` while normalisation is on.
    pub fn play_with_gain(&mut self, path: String, track_gain_mdb: i32)
        ensures
            final(self)@ == old(self)@.started(path@, track_gain_mdb),
    {
        self.is_playing = true;
        self.is_paused = false;
        self.should_stop = false;
        self.track_ended = false;
        self.seek_request = None;
        self.current_file = Some(path);
        self.samples_decoded = 0;
        self.sample_rate = 0;
        self.channels = 0;
        self.duration_ms = None;
        self.track_gain_mdb = track_gain_mdb;
    }

    /// Starts a session for `path` that begins with a seek to `position_ms`.
    pub fn play_from_position(&mut self, path: String, position_ms: u64)
        ensures
            final(self)@ == old(self)@.started(path@, 0).seek_requested(position_ms),
    {
        self.play_with_gain(path, 0);
        self.seek(position_ms);
    }

    /// Sets the pause flag.  The loop keeps its decoder and sleeps while the
    /// flag is set; starting a session clears it.
    pub fn pause(&mut self)
        ensures
            final(self)@ == old(self)@.paused(),
    {
        self.is_paused = true;
    }

    /// Clears the pause flag.
    pub fn resume(&mut self)
        ensures
            final(self)@ == old(self)@.resumed(),
    {
        self.is_paused = false;
    }

    /// First half of a stop: tells the loop to leave and lifts a pause so that
    /// a sleeping loop notices.  The caller then waits for the loop to end and
    /// calls `stop`.
    pub fn request_stop(&mut self)
        ensures
            final(self)@ == old(self)@.stop_requested(),
    {
        self.should_stop = true;
        self.is_paused = false;
    }

    /// Second half of a stop: forgets the session.
    pub fn stop(&mut self)
        ensures
            final(self)@ == old(self)@.stopped(),
    {
        self.is_playing = false;
        self.is_paused = false;
        self.should_stop = false;
        self.track_ended = false;
        self.seek_request = None;
        self.current_file = None;
        self.samples_decoded = 0;
        self.sample_rate = 0;
        self.channels = 0;
        self.duration_ms = None;
    }

    /// Records a seek target for the loop; a later call replaces an earlier one.
    pub fn seek(&mut self, position_ms: u64)
        ensures
            final(self)@ == old(self)@.seek_requested(position_ms),
    {
        self.seek_request = Some(position_ms);
    }

    /// Sets the user volume, limited to `MIN_VOLUME_MDB..=MAX_VOLUME_MDB`.
    pub fn set_volume_db(&mut self, volume_mdb: i32)
        ensures
            final(self)@ == old(self)@.with_volume(volume_mdb),
            final(self)@.volume_in_range(),
    {
        self.volume_mdb = if volume_mdb < MIN_VOLUME_MDB {
            MIN_VOLUME_MDB
        } else if volume_mdb > MAX_VOLUME_MDB {
            MAX_VOLUME_MDB
        } else {
            volume_mdb
        };
    }

    /// The user volume, in thousandths of a decibel.
    pub fn volume_db(&self) -> (volume_mdb: i32)
        ensures
            volume_mdb == self@.volume_mdb,
    {
        self.volume_mdb
    }

    /// Sets the gain that normalisation applies to the current track.
    pub fn set_track_gain(&mut self, track_gain_mdb: i32)
        ensures
            final(self)@ == (Session { track_gain_mdb, ..old(self)@ }),
    {
        self.track_gain_mdb = track_gain_mdb;
    }

    /// Switches loudness normalisation on or off.
    pub fn set_normalization_enabled(&mut self, enabled: bool)
        ensures
            final(self)@ == (Session { normalization_enabled: enabled, ..old(self)@ }),
    {
        self.normalization_enabled = enabled;
    }

    /// The gain to apply to every output sample, in thousandths of a decibel.
    /// It never exceeds unity, so normalisation cannot boost past the ceiling
    /// that the user volume sets at full scale.
    pub fn effective_gain_mdb(&self) -> (gain: i64)
        ensures
            gain == effective_gain(
                self@.volume_mdb,
                self@.track_gain_mdb,
                self@.normalization_enabled,
            ),
            gain <= 0,
    {
        let offset: i64 = if self.normalization_enabled {
            self.track_gain_mdb as i64
        } else {
            0
        };
        let wanted: i64 = self.volume_mdb as i64 + offset;
        if wanted > 0 {
            0
        } else {
            wanted
        }
    }

    /// Whether a session is active and not paused.
    pub fn is_playing(&self) -> (playing: bool)
        ensures
            playing == (self@.is_playing && !self@.is_paused),
    {
        self.is_playing && !self.is_paused
    }

    /// Whether a stop has been requested that the loop has yet to honour.
    /// The loop also asks this while it waits for room in the output buffer.
    pub fn should_stop(&self) -> (stop: bool)
        ensures
            stop == self@.should_stop,
    {
        self.should_stop
    }

    /// Whether the session is paused.
    pub fn is_paused(&self) -> (paused: bool)
        ensures
            paused == self@.is_paused,
    {
        self.is_paused
    }

    /// The file of the current session.
    pub fn current_file(&self) -> (file: Option<String>)
        ensures
            file is Some <==> self@.current_file is Some,
            file matches Some(path) ==> self@.current_file == Some(path@),
    {
        match &self.current_file {
            Some(path) => Some(path.clone()),
            None => None,
        }
    }

    /// Position of playback in milliseconds, counted in decoded samples at
    /// the stream's own rate.
    pub fn current_position(&self) -> (ms: u64)
        ensures
            ms == self@.position_ms(),
    {
        position_from_samples(self.samples_decoded, self.sample_rate, self.channels)
    }

    /// Length of the current track in milliseconds, where the container tells.
    pub fn total_duration(&self) -> (ms: Option<u64>)
        ensures
            ms == self@.duration_ms,
    {
        self.duration_ms
    }

    /// A snapshot for polling consumers.
    pub fn get_state(&self) -> (state: PlayerState)
        ensures
            state.is_playing == self@.is_playing,
            state.is_paused == self@.is_paused,
            state.current_file is Some <==> self@.current_file is Some,
            state.current_file matches Some(path) ==> self@.current_file == Some(path@),
            state.position_ms == self@.position_ms(),
            state.duration_ms == self@.duration_ms,
            state.volume_mdb == self@.volume_mdb,
            state.normalization_enabled == self@.normalization_enabled,
            state.track_gain_mdb == self@.track_gain_mdb,
    {
        PlayerState {
            is_playing: self.is_playing,
            is_paused: self.is_paused,
            current_file: self.current_file(),
            position_ms: self.current_position(),
            duration_ms: self.duration_ms,
            volume_mdb: self.volume_mdb,
            normalization_enabled: self.normalization_enabled,
            track_gain_mdb: self.track_gain_mdb,
        }
    }

    /// Whether the track has ended since this was last asked.  Asking consumes
    /// the answer: it is `true` once per ended session.
    pub fn has_track_ended(&mut self) -> (ended: bool)
        ensures
            ended == old(self)@.track_ended,
            final(self)@ == old(self)@.end_consumed(),
    {
        let ended = self.track_ended;
        self.track_ended = false;
        ended
    }

    /// Asked by the loop at the top of every turn.  A pending seek is handed
    /// out once and cleared; a stop request wins over everything.
    pub fn next_action(&mut self) -> (action: LoopAction)
        ensures
            action == old(self)@.action(),
            final(self)@ == old(self)@.action_taken(),
    {
        if self.should_stop {
            return LoopAction::Exit;
        }
        match self.seek_request {
            Some(target) => {
                self.seek_request = None;
                LoopAction::Seek(target)
            },
            None => {
                if self.is_paused {
                    LoopAction::Sleep
                } else {
                    LoopAction::Decode
                }
            },
        }
    }

    /// Told by the loop once the decoder is open.
    pub fn stream_opened(&mut self, sample_rate: u32, channels: u16, duration_ms: Option<u64>)
        ensures
            final(self)@ == old(self)@.opened(sample_rate, channels, duration_ms),
    {
        self.sample_rate = sample_rate;
        self.channels = channels;
        self.duration_ms = duration_ms;
    }

    /// Told by the loop where a seek actually landed.  Position reporting
    /// continues from there, not from the target that was asked for.
    pub fn seek_completed(&mut self, actual_ms: u64)
        ensures
            final(self)@ == old(self)@.sought(actual_ms),
    {
        self.samples_decoded = samples_from_position(actual_ms, self.sample_rate, self.channels);
    }

    /// Told by the loop how many interleaved samples the decoder produced.
    pub fn chunk_decoded(&mut self, samples: usize)
        ensures
            final(self)@ == old(self)@.advanced(samples),
    {
        let total: u128 = self.samples_decoded as u128 + samples as u128;
        self.samples_decoded = if total > u64::MAX as u128 {
            u64::MAX
        } else {
            total as u64
        };
    }

    /// Told by the loop as it leaves, whatever the reason.  The end is flagged
    /// in the same step in which the session stops playing, so that no
    /// observer finds it idle without also finding the flag.
    pub fn session_ended(&mut self)
        ensures
            final(self)@ == old(self)@.ended(),
    {
        self.track_ended = true;
        self.is_playing = false;
    }
}

/// Pausing a session that is already paused changes nothing, and neither
/// does resuming one that runs.  Resuming undoes pausing.
pub proof fn pause_is_idempotent(s: Session)
    ensures
        s.paused().paused() == s.paused(),
        s.resumed().resumed() == s.resumed(),
        s.paused().resumed() == s.resumed(),
        s.paused().is_paused,
        !s.resumed().is_paused,
{
}

/// Stopping a session that is already stopped changes nothing, and so does
/// asking twice for a stop.
pub proof fn stop_is_idempotent(s: Session)
    ensures
        s.stopped().stopped() == s.stopped(),
        s.stop_requested().stop_requested() == s.stop_requested(),
{
}

/// A stop request reaches the loop even when the session is paused: the
/// pause is lifted, and the next turn of the loop leaves.
pub proof fn stop_request_wins(s: Session)
    ensures
        !s.stop_requested().is_paused,
        s.stop_requested().action() == LoopAction::Exit,
        s.paused().stop_requested().action() == LoopAction::Exit,
        s.seek_requested(0).stop_requested().action() == LoopAction::Exit,
{
}

/// Of two seek requests the later one counts, and the loop is handed a
/// request only once.
pub proof fn seek_request_is_taken_once(s: Session, first: u64, second: u64)
    requires
        !s.should_stop,
    ensures
        s.seek_requested(first).seek_requested(second) == s.seek_requested(second),
        s.seek_requested(second).action() == LoopAction::Seek(second),
        s.seek_requested(second).action_taken().seek_request is None,
        !(s.seek_requested(second).action_taken().action() is Seek),
{
}

/// The end of a track is reported exactly once: the first poll after the
/// loop has left finds the flag, the second does not, and from the moment the
/// session is seen idle the flag is there to be found.
pub proof fn track_end_is_reported_once(s: Session)
    ensures
        s.ended().track_ended,
        !s.ended().is_playing,
        !s.ended().end_consumed().track_ended,
        !s.ended().end_consumed().end_consumed().track_ended,
{
}

/// Whatever volume is asked for, the volume kept is that value limited to
/// `MIN_VOLUME_MDB..=MAX_VOLUME_MDB`, and the gain applied follows from it alone.
pub proof fn volume_is_clamped(s: Session, volume_mdb: i32)
    ensures
        s.with_volume(volume_mdb).volume_in_range(),
        MIN_VOLUME_MDB <= volume_mdb <= MAX_VOLUME_MDB ==> s.with_volume(volume_mdb).volume_mdb
            == volume_mdb,
        volume_mdb < MIN_VOLUME_MDB ==> s.with_volume(volume_mdb).volume_mdb == MIN_VOLUME_MDB,
        volume_mdb > MAX_VOLUME_MDB ==> s.with_volume(volume_mdb).volume_mdb == MAX_VOLUME_MDB,
        s.with_volume(volume_mdb).with_volume(s.with_volume(volume_mdb).volume_mdb) == s.with_volume(
            volume_mdb,
        ),
{
}

/// Normalisation never lifts the output above the level that the user volume
/// gives at unity, and with normalisation off the track gain plays no part.
pub proof fn gain_never_exceeds_unity(volume_mdb: i32, track_gain_mdb: i32, enabled: bool)
    ensures
        effective_gain(volume_mdb, track_gain_mdb, enabled) <= 0,
        effective_gain(volume_mdb, track_gain_mdb, false) == effective_gain(volume_mdb, 0, true),
        volume_mdb <= 0 ==> effective_gain(volume_mdb, track_gain_mdb, false) == volume_mdb,
{
}

/// After a seek the reported position follows where the decoder landed, not
/// the target asked for: it is never ahead of the landing point, lags it by
/// less than one millisecond plus one sample, and after a further chunk of
/// `chunk` samples is ahead by no more than that chunk's length.
pub proof fn position_follows_seek_landing(s: Session, actual_ms: u64, chunk: usize)
    requires
        s.sample_rate > 0,
        s.channels > 0,
        (actual_ms * samples_per_second(s.sample_rate, s.channels) / 1000 + chunk) * 1000
            / samples_per_second(s.sample_rate, s.channels) <= u64::MAX,
        actual_ms * samples_per_second(s.sample_rate, s.channels) / 1000 + chunk <= u64::MAX,
    ensures
        s.sought(actual_ms).position_ms() <= actual_ms,
        (actual_ms - s.sought(actual_ms).position_ms() - 1) * samples_per_second(
            s.sample_rate,
            s.channels,
        ) < 1000,
        s.sought(actual_ms).position_ms() <= s.sought(actual_ms).advanced(chunk).position_ms(),
        (s.sought(actual_ms).advanced(chunk).position_ms() - actual_ms) * samples_per_second(
            s.sample_rate,
            s.channels,
        ) <= 1000 * chunk,
{
    let r = samples_per_second(s.sample_rate, s.channels);
    assert(r > 0) by (nonlinear_arith)
        requires
            r == s.sample_rate * s.channels,
            s.sample_rate > 0,
            s.channels > 0,
    ;
    let a = actual_ms as int;
    let n = chunk as int;
    assert(a * r >= 0) by (nonlinear_arith)
        requires
            a >= 0,
            r > 0,
    ;
    let s0 = a * r / 1000;
    assert(0 <= s0);
    assert(1000 * s0 <= a * r < 1000 * s0 + 1000);
    let at_landing = s0 * 1000 / r;
    let after_chunk = (s0 + n) * 1000 / r;
    vstd::arithmetic::div_mod::lemma_fundamental_div_mod(s0 * 1000, r);
    vstd::arithmetic::div_mod::lemma_mod_pos_bound(s0 * 1000, r);
    vstd::arithmetic::div_mod::lemma_fundamental_div_mod((s0 + n) * 1000, r);
    vstd::arithmetic::div_mod::lemma_mod_pos_bound((s0 + n) * 1000, r);
    vstd::arithmetic::div_mod::lemma_div_is_ordered(s0 * 1000, (s0 + n) * 1000, r);
    vstd::arithmetic::div_mod::lemma_div_pos_is_pos(s0 * 1000, r);
    assert(0 <= at_landing <= after_chunk);
    assert(r * at_landing <= s0 * 1000);
    assert(r * at_landing > s0 * 1000 - r);
    assert(r * after_chunk <= (s0 + n) * 1000);
    assert(at_landing <= a) by (nonlinear_arith)
        requires
            r * at_landing <= s0 * 1000,
            1000 * s0 <= a * r,
            r > 0,
    ;
    assert((a - at_landing - 1) * r < 1000) by (nonlinear_arith)
        requires
            r * at_landing > s0 * 1000 - r,
            a * r < 1000 * s0 + 1000,
    ;
    assert((after_chunk - a) * r <= 1000 * n) by (nonlinear_arith)
        requires
            r * after_chunk <= (s0 + n) * 1000,
            1000 * s0 <= a * r,
    ;
    let landed = s.sought(actual_ms);
    assert(landed.samples_decoded == s0);
    assert(landed.position_ms() == at_landing);
    assert(landed.advanced(chunk).samples_decoded == s0 + n);
    assert(landed.advanced(chunk).position_ms() == after_chunk);
}

} // verus!
