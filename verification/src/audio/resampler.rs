//! Bookkeeping around the sample-rate converter.
//!
//! The converter works on planar chunks of a fixed number of frames.  Decoded
//! audio arrives interleaved and in pieces of any length; a [`Resampler`]
//! splits it by channel, collects it, and hands out one full chunk at a time.
//! What the converter returns is laid out for the device again, with the
//! channel count adapted.  The interpolation itself is the caller's.

use vstd::prelude::*;

verus! {

/// Frames in one chunk handed to the converter.
pub const CHUNK_FRAMES: usize = 1024;

/// Per-channel accumulation of decoded samples of type `T`.
pub struct Resampler<T> {
    pending: Vec<Vec<T>>,
    chunk_size: usize,
}

/// A chunk for the converter: one plane per channel, each `chunk_size` frames
/// long, of which the first `valid_frames` hold audio and the rest padding.
pub struct Chunk<T> {
    pub planes: Vec<Vec<T>>,
    pub valid_frames: usize,
}

/// Whether audio at `source_rate` must be converted for a device at `device_rate`.
pub open spec fn rates_differ(source_rate: u32, device_rate: u32) -> bool {
    source_rate != device_rate
}

/// The samples of channel `c` in interleaved audio of `channels` channels.
/// A trailing frame that is not complete is left out.
pub open spec fn channel_of<T>(samples: Seq<T>, channels: int, c: int) -> Seq<T> {
    Seq::new(((samples.len() as int) / channels) as nat, |f: int| samples[f * channels + c])
}

/// The views of a vector of planes.
pub open spec fn plane_views<T>(planes: Seq<Vec<T>>) -> Seq<Seq<T>> {
    Seq::new(planes.len(), |c: int| planes[c]@)
}

/// The source channel that feeds channel `out_channel` of the device.  With
/// as many channels on both sides each feeds its own.  With more device
/// channels than source channels the surplus repeats the first source
/// channel.  With fewer, the leading source channels are dropped.
pub open spec fn source_channel(out_channel: int, in_channels: int, out_channels: int) -> int {
    if out_channels <= in_channels {
        out_channel + (in_channels - out_channels)
    } else if out_channel < in_channels {
        out_channel
    } else {
        0
    }
}

/// The first `frames` frames of `planes`, interleaved for `out_channels`
/// device channels.
pub open spec fn adapted<T>(planes: Seq<Seq<T>>, frames: nat, out_channels: nat) -> Seq<T> {
    if planes.len() == 0 || out_channels == 0 {
        Seq::<T>::empty()
    } else {
        Seq::new(
            frames * out_channels,
            |i: int|
                planes[source_channel(
                    i % (out_channels as int),
                    planes.len() as int,
                    out_channels as int,
                )][i / (out_channels as int)],
        )
    }
}

/// Of `produced` output frames made from a chunk of which only `valid_frames`
/// of `chunk_size` held audio, the number that is audio.
pub open spec fn valid_fraction(produced: int, valid_frames: int, chunk_size: int) -> int {
    produced * valid_frames / chunk_size
}

/// Frames that `source_frames` frames at `source_rate` become at `device_rate`.
pub open spec fn converted_frames(source_frames: int, source_rate: int, device_rate: int) -> int {
    source_frames * device_rate / source_rate
}

/// `plane` with its first `count` samples removed.
pub open spec fn after_taking<T>(plane: Seq<T>, count: int) -> Seq<T> {
    plane.subrange(count, plane.len() as int)
}

/// The first `count` samples of `plane`, or all of it padded with `zero`.
pub open spec fn padded<T>(plane: Seq<T>, count: int, zero: T) -> Seq<T> {
    Seq::new(
        count as nat,
        |f: int|
            if f < plane.len() {
                plane[f]
            } else {
                zero
            },
    )
}

/// Whether conversion is needed at all.
pub fn needs_resampling(source_rate: u32, device_rate: u32) -> (needed: bool)
    ensures
        needed == rates_differ(source_rate, device_rate),
{
    source_rate != device_rate
}

/// Copies `plane[from..to]`.
fn copy_range<T: Copy>(plane: &Vec<T>, from: usize, to: usize) -> (copy: Vec<T>)
    requires
        from <= to <= plane@.len(),
    ensures
        copy@ == plane@.subrange(from as int, to as int),
{
    let mut copy: Vec<T> = Vec::new();
    let mut i: usize = from;
    while i < to
        invariant
            from <= i <= to <= plane@.len(),
            copy@ == plane@.subrange(from as int, i as int),
        decreases to - i,
    {
        copy.push(plane[i]);
        proof {
            assert(copy@ =~= plane@.subrange(from as int, i + 1));
        }
        i = i + 1;
    }
    copy
}

/// Copies the first `count` samples of `plane`, padding with `zero`.
fn copy_padded<T: Copy>(plane: &Vec<T>, count: usize, zero: T) -> (copy: Vec<T>)
    ensures
        copy@ == padded(plane@, count as int, zero),
{
    let mut copy: Vec<T> = Vec::new();
    let mut i: usize = 0;
    while i < count
        invariant
            i <= count,
            copy@ == padded(plane@, i as int, zero),
        decreases count - i,
    {
        let value: T = if i < plane.len() {
            plane[i]
        } else {
            zero
        };
        copy.push(value);
        proof {
            assert(copy@ =~= padded(plane@, i + 1, zero));
        }
        i = i + 1;
    }
    copy
}

impl<T: Copy> Resampler<T> {
    /// What is waiting, one sequence per channel.
    pub closed spec fn pending(&self) -> Seq<Seq<T>> {
        plane_views(self.pending@)
    }

    /// Number of source channels.
    pub open spec fn channels(&self) -> nat {
        self.pending().len()
    }

    /// Frames per chunk.
    pub closed spec fn chunk_size(&self) -> usize {
        self.chunk_size
    }

    /// Frames waiting.
    pub open spec fn pending_frames(&self) -> nat {
        self.pending()[0].len()
    }

    /// There is at least one channel, a chunk has at least one frame, and
    /// every channel holds equally many frames.
    pub open spec fn wf(&self) -> bool {
        &&& self.channels() > 0
        &&& self.chunk_size() > 0
        &&& forall|c: int|
            0 <= c < self.channels() ==> (#[trigger] self.pending()[c]).len()
                == self.pending_frames()
    }

    /// An empty accumulator for `channels` source channels and chunks of
    /// `chunk_size` frames; `None` where either is zero.
    pub fn new(channels: usize, chunk_size: usize) -> (made: Option<Resampler<T>>)
        ensures
            made is Some <==> channels > 0 && chunk_size > 0,
            made matches Some(r) ==> r.wf() && r.channels() == channels && r.chunk_size()
                == chunk_size && r.pending_frames() == 0,
    {
        if channels == 0 || chunk_size == 0 {
            return None;
        }
        let mut pending: Vec<Vec<T>> = Vec::new();
        let mut c: usize = 0;
        while c < channels
            invariant
                c <= channels,
                pending@.len() == c,
                forall|k: int| 0 <= k < c ==> (#[trigger] pending@[k])@.len() == 0,
            decreases channels - c,
        {
            pending.push(Vec::new());
            c = c + 1;
        }
        let made = Resampler { pending, chunk_size };
        proof {
            assert(made.pending().len() == channels);
            assert forall|k: int| 0 <= k < made.channels() implies (#[trigger] made.pending()[k]).len()
                == 0 by {
                assert(made.pending()[k] == made.pending@[k]@);
            }
        }
        Some(made)
    }

    /// Number of source channels.
    pub fn channel_count(&self) -> (count: usize)
        ensures
            count == self.channels(),
    {
        self.pending.len()
    }

    /// Frames waiting.
    pub fn frames_pending(&self) -> (frames: usize)
        requires
            self.wf(),
        ensures
            frames == self.pending_frames(),
    {
        proof {
            assert(self.pending()[0] == self.pending@[0]@);
        }
        self.pending[0].len()
    }

    /// Whether a full chunk is waiting.
    pub fn chunk_ready(&self) -> (ready: bool)
        requires
            self.wf(),
        ensures
            ready == (self.pending_frames() >= self.chunk_size()),
    {
        self.frames_pending() >= self.chunk_size
    }

    /// Splits interleaved samples by channel and appends them to what is
    /// waiting.  Only whole frames are taken.
    pub fn push_interleaved(&mut self, samples: &[T])
        requires
            old(self).wf(),
        ensures
            final(self).wf(),
            final(self).channels() == old(self).channels(),
            final(self).chunk_size() == old(self).chunk_size(),
            forall|c: int|
                0 <= c < old(self).channels() ==> #[trigger] final(self).pending()[c] == old(
                    self,
                ).pending()[c] + channel_of(samples@, old(self).channels() as int, c),
    {
        let channels = self.pending.len();
        let frames = samples.len() / channels;
        let ghost before = self.pending();
        proof {
            assert forall|k: int| 0 <= k < channels implies self.pending@[k]@ == before[k] by {}
        }
        let mut c: usize = 0;
        while c < channels
            invariant
                c <= channels,
                channels > 0,
                channels == self.pending@.len(),
                channels == before.len(),
                frames == (samples@.len() as int) / (channels as int),
                samples@.len() <= usize::MAX,
                self.chunk_size == old(self).chunk_size,
                forall|k: int|
                    0 <= k < c ==> (#[trigger] self.pending@[k])@ == before[k] + channel_of(
                        samples@,
                        channels as int,
                        k,
                    ),
                forall|k: int| c <= k < channels ==> (#[trigger] self.pending@[k])@ == before[k],
            decreases channels - c,
        {
            let mut f: usize = 0;
            while f < frames
                invariant
                    c < channels,
                    f <= frames,
                    channels == self.pending@.len(),
                    channels == before.len(),
                    frames == (samples@.len() as int) / (channels as int),
                samples@.len() <= usize::MAX,
                    self.chunk_size == old(self).chunk_size,
                    forall|k: int|
                        0 <= k < c ==> (#[trigger] self.pending@[k])@ == before[k] + channel_of(
                            samples@,
                            channels as int,
                            k,
                        ),
                    forall|k: int|
                        c < k < channels ==> (#[trigger] self.pending@[k])@ == before[k],
                    self.pending@[c as int]@ == before[c as int] + channel_of(
                        samples@,
                        channels as int,
                        c as int,
                    ).subrange(0, f as int),
                decreases frames - f,
            {
                proof {
                    vstd::arithmetic::div_mod::lemma_fundamental_div_mod(
                        samples@.len() as int,
                        channels as int,
                    );
                    vstd::arithmetic::div_mod::lemma_mod_pos_bound(
                        samples@.len() as int,
                        channels as int,
                    );
                    assert(0 <= f * channels && f * channels + c < frames * channels) by (nonlinear_arith)
                        requires
                            0 <= f < frames,
                            0 <= c < channels,
                    ;
                    assert(frames * channels == channels * frames) by (nonlinear_arith);
                    assert(frames * channels <= samples@.len());
                }
                let value: T = samples[f * channels + c];
                self.pending[c].push(value);
                proof {
                    let whole = channel_of(samples@, channels as int, c as int);
                    assert(whole.subrange(0, f as int).push(value) =~= whole.subrange(0, f + 1));
                    assert(self.pending@[c as int]@ =~= before[c as int] + whole.subrange(
                        0,
                        f + 1,
                    ));
                }
                f = f + 1;
            }
            proof {
                let whole = channel_of(samples@, channels as int, c as int);
                assert(whole.subrange(0, frames as int) =~= whole);
            }
            c = c + 1;
        }
        proof {
            assert forall|k: int| 0 <= k < channels implies #[trigger] self.pending()[k]
                == before[k] + channel_of(samples@, channels as int, k) by {
                assert(self.pending()[k] == self.pending@[k]@);
            }
            assert forall|k: int| 0 <= k < self.channels() implies (#[trigger] self.pending()[k]).len()
                == self.pending_frames() by {
                assert(before[k].len() == before[0].len());
            }
        }
    }

    /// Takes one full chunk from the front of what is waiting, or returns
    /// `None` and changes nothing while less than a chunk is waiting.
    pub fn take_chunk(&mut self) -> (chunk: Option<Chunk<T>>)
        requires
            old(self).wf(),
        ensures
            final(self).wf(),
            final(self).channels() == old(self).channels(),
            final(self).chunk_size() == old(self).chunk_size(),
            chunk is Some <==> old(self).pending_frames() >= old(self).chunk_size(),
            chunk is None ==> final(self).pending() == old(self).pending(),
            chunk matches Some(taken) ==> {
                &&& taken.valid_frames == old(self).chunk_size()
                &&& taken.planes@.len() == old(self).channels()
                &&& forall|c: int|
                    0 <= c < old(self).channels() ==> (#[trigger] taken.planes@[c])@ == old(
                        self,
                    ).pending()[c].subrange(0, old(self).chunk_size() as int)
                &&& forall|c: int|
                    0 <= c < old(self).channels() ==> #[trigger] final(self).pending()[c]
                        == after_taking(old(self).pending()[c], old(self).chunk_size() as int)
            },
    {
        if !self.chunk_ready() {
            return None;
        }
        let planes = self.split_front(self.chunk_size);
        Some(Chunk { planes, valid_frames: self.chunk_size })
    }

    /// At the end of the stream: takes what is left, padded with `zero` to a
    /// full chunk, and says how many of its frames are audio.  Returns `None`
    /// when nothing is left.
    pub fn take_remainder(&mut self, zero: T) -> (chunk: Option<Chunk<T>>)
        requires
            old(self).wf(),
        ensures
            final(self).wf(),
            final(self).channels() == old(self).channels(),
            final(self).chunk_size() == old(self).chunk_size(),
            chunk is Some <==> old(self).pending_frames() > 0,
            chunk is None ==> final(self).pending() == old(self).pending(),
            chunk matches Some(taken) ==> {
                &&& taken.valid_frames == (if old(self).pending_frames() < old(self).chunk_size() {
                    old(self).pending_frames() as int
                } else {
                    old(self).chunk_size() as int
                })
                &&& taken.planes@.len() == old(self).channels()
                &&& forall|c: int|
                    0 <= c < old(self).channels() ==> (#[trigger] taken.planes@[c])@ == padded(
                        old(self).pending()[c],
                        old(self).chunk_size() as int,
                        zero,
                    )
                &&& forall|c: int|
                    0 <= c < old(self).channels() ==> #[trigger] final(self).pending()[c]
                        == after_taking(old(self).pending()[c], taken.valid_frames as int)
            },
    {
        let waiting = self.frames_pending();
        if waiting == 0 {
            return None;
        }
        let valid_frames = if waiting < self.chunk_size {
            waiting
        } else {
            self.chunk_size
        };
        let channels = self.pending.len();
        let ghost before = self.pending();
        proof {
            assert forall|k: int| 0 <= k < channels implies self.pending@[k]@ == before[k] by {}
        }
        let mut planes: Vec<Vec<T>> = Vec::new();
        let mut c: usize = 0;
        while c < channels
            invariant
                c <= channels,
                channels == self.pending@.len(),
                self.pending() == before,
                forall|k: int| 0 <= k < channels ==> (#[trigger] self.pending@[k])@ == before[k],
                planes@.len() == c,
                forall|k: int|
                    0 <= k < c ==> (#[trigger] planes@[k])@ == padded(
                        before[k],
                        self.chunk_size as int,
                        zero,
                    ),
            decreases channels - c,
        {
            let plane = copy_padded(&self.pending[c], self.chunk_size, zero);
            planes.push(plane);
            c = c + 1;
        }
        let _ = self.split_front(valid_frames);
        Some(Chunk { planes, valid_frames })
    }

    /// Removes the first `count` frames of every channel and returns them.
    fn split_front(&mut self, count: usize) -> (planes: Vec<Vec<T>>)
        requires
            old(self).wf(),
            count <= old(self).pending_frames(),
        ensures
            final(self).wf(),
            final(self).channels() == old(self).channels(),
            final(self).chunk_size() == old(self).chunk_size(),
            planes@.len() == old(self).channels(),
            forall|c: int|
                0 <= c < old(self).channels() ==> (#[trigger] planes@[c])@ == old(
                    self,
                ).pending()[c].subrange(0, count as int),
            forall|c: int|
                0 <= c < old(self).channels() ==> #[trigger] final(self).pending()[c]
                    == after_taking(old(self).pending()[c], count as int),
    {
        let channels = self.pending.len();
        let ghost before = self.pending();
        proof {
            assert forall|k: int| 0 <= k < channels implies self.pending@[k]@ == before[k] by {}
        }
        let mut planes: Vec<Vec<T>> = Vec::new();
        let mut c: usize = 0;
        while c < channels
            invariant
                c <= channels,
                channels > 0,
                channels == self.pending@.len(),
                channels == before.len(),
                self.chunk_size == old(self).chunk_size,
                forall|k: int| 0 <= k < channels ==> count <= (#[trigger] before[k]).len(),
                planes@.len() == c,
                forall|k: int|
                    0 <= k < c ==> (#[trigger] planes@[k])@ == before[k].subrange(0, count as int),
                forall|k: int|
                    0 <= k < c ==> (#[trigger] self.pending@[k])@ == after_taking(
                        before[k],
                        count as int,
                    ),
                forall|k: int| c <= k < channels ==> (#[trigger] self.pending@[k])@ == before[k],
            decreases channels - c,
        {
            let length = self.pending[c].len();
            let head = copy_range(&self.pending[c], 0, count);
            let tail = copy_range(&self.pending[c], count, length);
            planes.push(head);
            self.pending[c] = tail;
            c = c + 1;
        }
        proof {
            assert forall|k: int| 0 <= k < channels implies #[trigger] self.pending()[k]
                == after_taking(before[k], count as int) by {
                assert(self.pending()[k] == self.pending@[k]@);
            }
            assert forall|k: int| 0 <= k < self.channels() implies (#[trigger] self.pending()[k]).len()
                == self.pending_frames() by {
                assert(before[k].len() == before[0].len());
            }
        }
        planes
    }

    /// Forgets everything that is waiting, as after a seek.
    pub fn reset(&mut self)
        requires
            old(self).wf(),
        ensures
            final(self).wf(),
            final(self).channels() == old(self).channels(),
            final(self).chunk_size() == old(self).chunk_size(),
            final(self).pending_frames() == 0,
    {
        let channels = self.pending.len();
        let mut c: usize = 0;
        while c < channels
            invariant
                c <= channels,
                channels > 0,
                channels == self.pending@.len(),
                self.chunk_size == old(self).chunk_size,
                forall|k: int| 0 <= k < c ==> (#[trigger] self.pending@[k])@.len() == 0,
            decreases channels - c,
        {
            self.pending[c] = Vec::new();
            c = c + 1;
        }
        proof {
            assert forall|k: int| 0 <= k < self.channels() implies (#[trigger] self.pending()[k]).len()
                == 0 by {
                assert(self.pending()[k] == self.pending@[k]@);
            }
        }
    }
}

/// Of `produced` frames that the converter made from a padded chunk, the
/// number to pass on: the share that the audio had of the chunk.
pub fn valid_output_frames(produced: usize, valid_frames: usize, chunk_size: usize) -> (frames: usize)
    requires
        chunk_size > 0,
        valid_frames <= chunk_size,
    ensures
        frames == valid_fraction(produced as int, valid_frames as int, chunk_size as int),
        frames <= produced,
{
    proof {
        assert(0 <= produced * valid_frames <= produced * chunk_size) by (nonlinear_arith)
            requires
                0 <= valid_frames <= chunk_size,
                0 <= produced,
        ;
        assert(produced * chunk_size <= 0xffff_ffff_ffff_ffff * 0xffff_ffff_ffff_ffff)
            by (nonlinear_arith)
            requires
                0 <= produced <= 0xffff_ffff_ffff_ffff,
                0 <= chunk_size <= 0xffff_ffff_ffff_ffff,
        ;
        vstd::arithmetic::div_mod::lemma_div_is_ordered(
            produced * valid_frames,
            produced * chunk_size,
            chunk_size as int,
        );
        vstd::arithmetic::div_mod::lemma_div_multiples_vanish(produced as int, chunk_size as int);
        assert(produced * chunk_size == chunk_size * produced) by (nonlinear_arith);
    }
    let scaled: u128 = (produced as u128) * (valid_frames as u128);
    (scaled / (chunk_size as u128)) as usize
}

/// Lays `frames` frames of converted planes out for a device with
/// `out_channels` channels.
pub fn adapt_channels<T: Copy>(planes: &Vec<Vec<T>>, frames: usize, out_channels: usize) -> (samples:
    Vec<T>)
    requires
        frames * out_channels <= usize::MAX,
        forall|c: int| 0 <= c < planes@.len() ==> frames <= (#[trigger] planes@[c])@.len(),
    ensures
        samples@ == adapted(plane_views(planes@), frames as nat, out_channels as nat),
{
    let in_channels = planes.len();
    let mut samples: Vec<T> = Vec::new();
    if in_channels == 0 || out_channels == 0 {
        proof {
            assert(samples@ =~= adapted(plane_views(planes@), frames as nat, out_channels as nat));
        }
        return samples;
    }
    let ghost model = plane_views(planes@);
    let mut frame: usize = 0;
    while frame < frames
        invariant
            in_channels == planes@.len(),
            in_channels > 0,
            out_channels > 0,
            frame <= frames,
            model == plane_views(planes@),
            frames * out_channels <= usize::MAX,
            forall|c: int| 0 <= c < planes@.len() ==> frames <= (#[trigger] planes@[c])@.len(),
            samples@.len() == frame * out_channels,
            forall|i: int|
                0 <= i < samples@.len() ==> samples@[i] == model[source_channel(
                    i % (out_channels as int),
                    in_channels as int,
                    out_channels as int,
                )][i / (out_channels as int)],
        decreases frames - frame,
    {
        let mut ch: usize = 0;
        while ch < out_channels
            invariant
                in_channels == planes@.len(),
                in_channels > 0,
                out_channels > 0,
                frame < frames,
                ch <= out_channels,
                model == plane_views(planes@),
                frames * out_channels <= usize::MAX,
                forall|c: int| 0 <= c < planes@.len() ==> frames <= (#[trigger] planes@[c])@.len(),
                samples@.len() == frame * out_channels + ch,
                forall|i: int|
                    0 <= i < samples@.len() ==> samples@[i] == model[source_channel(
                        i % (out_channels as int),
                        in_channels as int,
                        out_channels as int,
                    )][i / (out_channels as int)],
            decreases out_channels - ch,
        {
            let source: usize = if out_channels <= in_channels {
                ch + (in_channels - out_channels)
            } else if ch < in_channels {
                ch
            } else {
                0
            };
            let value: T = planes[source][frame];
            proof {
                let i = frame * out_channels + ch;
                vstd::arithmetic::div_mod::lemma_fundamental_div_mod_converse(
                    i as int,
                    out_channels as int,
                    frame as int,
                    ch as int,
                );
                assert(model[source as int][frame as int] == value);
            }
            samples.push(value);
            ch = ch + 1;
        }
        proof {
            assert(frame * out_channels + out_channels == (frame + 1) * out_channels)
                by (nonlinear_arith);
        }
        frame = frame + 1;
    }
    proof {
        assert(samples@ =~= adapted(plane_views(planes@), frames as nat, out_channels as nat));
    }
    samples
}

/// Frames that `source_frames` frames become when converted from
/// `source_rate` to `device_rate`; `None` without a source rate.
pub fn expected_output_frames(source_frames: u64, source_rate: u32, device_rate: u32) -> (frames:
    Option<u64>)
    ensures
        frames is Some <==> source_rate > 0 && converted_frames(
            source_frames as int,
            source_rate as int,
            device_rate as int,
        ) <= u64::MAX,
        frames matches Some(n) ==> n == converted_frames(
            source_frames as int,
            source_rate as int,
            device_rate as int,
        ),
{
    if source_rate == 0 {
        return None;
    }
    proof {
        assert(0 <= source_frames * device_rate <= 0xffff_ffff_ffff_ffff * 0xffff_ffff)
            by (nonlinear_arith)
            requires
                0 <= source_frames <= 0xffff_ffff_ffff_ffff,
                0 <= device_rate <= 0xffff_ffff,
        ;
    }
    let scaled: u128 = (source_frames as u128) * (device_rate as u128);
    let frames: u128 = scaled / (source_rate as u128);
    if frames > u64::MAX as u128 {
        None
    } else {
        Some(frames as u64)
    }
}

/// A padded chunk gives up exactly the share of the converter's output that
/// its audio had of the chunk: all of it for a full chunk, none of it for an
/// empty one, and never more for less audio.
pub proof fn valid_fraction_is_proportional(produced: int, valid_frames: int, chunk_size: int)
    requires
        0 <= produced,
        0 <= valid_frames <= chunk_size,
        0 < chunk_size,
    ensures
        0 <= valid_fraction(produced, valid_frames, chunk_size) <= produced,
        valid_fraction(produced, chunk_size, chunk_size) == produced,
        valid_fraction(produced, 0, chunk_size) == 0,
        forall|fewer: int|
            0 <= fewer <= valid_frames ==> #[trigger] valid_fraction(produced, fewer, chunk_size)
                <= valid_fraction(produced, valid_frames, chunk_size),
{
    assert(0 <= produced * valid_frames <= produced * chunk_size) by (nonlinear_arith)
        requires
            0 <= valid_frames <= chunk_size,
            0 <= produced,
    ;
    vstd::arithmetic::div_mod::lemma_div_is_ordered(
        produced * valid_frames,
        produced * chunk_size,
        chunk_size,
    );
    vstd::arithmetic::div_mod::lemma_div_multiples_vanish(produced, chunk_size);
    assert(produced * chunk_size == chunk_size * produced) by (nonlinear_arith);
    vstd::arithmetic::div_mod::lemma_div_pos_is_pos(produced * valid_frames, chunk_size);
    assert(produced * 0 == 0);
    assert forall|fewer: int| 0 <= fewer <= valid_frames implies #[trigger] valid_fraction(
        produced,
        fewer,
        chunk_size,
    ) <= valid_fraction(produced, valid_frames, chunk_size) by {
        assert(produced * fewer <= produced * valid_frames) by (nonlinear_arith)
            requires
                0 <= fewer <= valid_frames,
                0 <= produced,
        ;
        vstd::arithmetic::div_mod::lemma_div_is_ordered(
            produced * fewer,
            produced * valid_frames,
            chunk_size,
        );
    }
}

/// Converted audio lasts as long as its source, to within one device frame:
/// the frame counts stand in the ratio of the rates.
pub proof fn conversion_keeps_duration(source_frames: int, source_rate: int, device_rate: int)
    requires
        0 <= source_frames,
        0 < source_rate,
        0 <= device_rate,
    ensures
        converted_frames(source_frames, source_rate, device_rate) * source_rate <= source_frames
            * device_rate,
        source_frames * device_rate < (converted_frames(source_frames, source_rate, device_rate)
            + 1) * source_rate,
        source_rate == device_rate ==> converted_frames(source_frames, source_rate, device_rate)
            == source_frames,
{
    let scaled = source_frames * device_rate;
    let out = scaled / source_rate;
    vstd::arithmetic::div_mod::lemma_fundamental_div_mod(scaled, source_rate);
    vstd::arithmetic::div_mod::lemma_mod_pos_bound(scaled, source_rate);
    assert(out * source_rate == source_rate * out) by (nonlinear_arith);
    assert((out + 1) * source_rate == source_rate * out + source_rate) by (nonlinear_arith);
    if source_rate == device_rate {
        vstd::arithmetic::div_mod::lemma_div_multiples_vanish(source_frames, source_rate);
        assert(source_frames * source_rate == source_rate * source_frames) by (nonlinear_arith);
    }
}

/// Every device channel is fed by a source channel that exists.  With equal
/// counts each channel feeds its own, extra device channels repeat the first
/// source channel, and with fewer device channels the leading source channels
/// are the ones left out.
pub proof fn channel_adaptation(out_channel: int, in_channels: int, out_channels: int)
    requires
        0 < in_channels,
        0 <= out_channel < out_channels,
    ensures
        0 <= source_channel(out_channel, in_channels, out_channels) < in_channels,
        in_channels == out_channels ==> source_channel(out_channel, in_channels, out_channels)
            == out_channel,
        out_channels > in_channels && out_channel >= in_channels ==> source_channel(
            out_channel,
            in_channels,
            out_channels,
        ) == 0,
        out_channels < in_channels ==> source_channel(out_channel, in_channels, out_channels)
            >= in_channels - out_channels,
{
}

} // verus!
