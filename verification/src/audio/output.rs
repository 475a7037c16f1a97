//! Sample buffering between the decoding thread and the device callback.
//!
//! Samples travel as the bit patterns of 32-bit floats; nothing here looks
//! inside them.  The decoding side appends with [`AudioOutput::write`], the
//! device side drains with [`AudioOutput::render`].  The buffer never grows
//! past its capacity and never overwrites: what does not fit is left with the
//! writer, and what is read is always the oldest sample not yet read.

use ringbuf::traits::{Consumer, Observer, Producer};
use vstd::prelude::*;

verus! {

/// Capacity of the sample buffer of a 48 kHz device: a quarter second of
/// stereo audio.
pub const RING_BUFFER_SIZE: usize = 24000;

/// Largest capacity a sample buffer is given.
pub const MAX_RING_CAPACITY: usize = 0x0fff_ffff;

/// Bit pattern of the sample played when the buffer has run dry.
pub const SILENCE: u32 = 0;

/// A heap-allocated ring buffer of the `ringbuf` crate, holding sample bit
/// patterns.  Verus sees it only through [`ring_items`] and [`ring_capacity`].
#[verifier::external_body]
pub struct SampleRing {
    inner: ringbuf::HeapRb<u32>,
}

/// The samples held by a ring, oldest first.
pub uninterp spec fn ring_items(ring: SampleRing) -> Seq<u32>;

/// The number of samples a ring was made to hold.
pub uninterp spec fn ring_capacity(ring: SampleRing) -> nat;

/// `HeapRb::new`: a ring of the given capacity, holding nothing.  The call
/// panics on a zero capacity and on a capacity whose storage cannot be
/// allocated, so both are ruled out.
#[verifier::external_body]
fn ring_with_capacity(capacity: usize) -> (ring: SampleRing)
    requires
        0 < capacity,
        capacity * 4 <= isize::MAX,
    ensures
        ring_items(ring) == Seq::<u32>::empty(),
        ring_capacity(ring) == capacity,
{
    SampleRing { inner: ringbuf::HeapRb::<u32>::new(capacity) }
}

/// `Producer::try_push`: appends the sample when the ring has room and
/// reports whether it did; a full ring is left as it was.
#[verifier::external_body]
fn ring_push(ring: &mut SampleRing, sample: u32) -> (accepted: bool)
    ensures
        ring_capacity(*final(ring)) == ring_capacity(*old(ring)),
        accepted == (ring_items(*old(ring)).len() < ring_capacity(*old(ring))),
        accepted ==> ring_items(*final(ring)) == ring_items(*old(ring)).push(sample),
        !accepted ==> ring_items(*final(ring)) == ring_items(*old(ring)),
{
    ring.inner.try_push(sample).is_ok()
}

/// `Consumer::try_pop`: removes and returns the oldest sample, or returns
/// `None` from an empty ring.
#[verifier::external_body]
fn ring_pop(ring: &mut SampleRing) -> (sample: Option<u32>)
    ensures
        ring_capacity(*final(ring)) == ring_capacity(*old(ring)),
        ring_items(*old(ring)).len() == 0 ==> sample is None && ring_items(*final(ring))
            == ring_items(*old(ring)),
        ring_items(*old(ring)).len() > 0 ==> sample == Some(ring_items(*old(ring))[0])
            && ring_items(*final(ring)) == ring_items(*old(ring)).drop_first(),
{
    ring.inner.try_pop()
}

/// `Observer::vacant_len`: the number of samples that still fit.
#[verifier::external_body]
fn ring_vacant(ring: &SampleRing) -> (free: usize)
    ensures
        free == ring_capacity(*ring) - ring_items(*ring).len(),
{
    ring.inner.vacant_len()
}

/// What one turn of [`AudioOutput::write_blocking`] leaves for its caller to do.
#[derive(Clone, Copy, Debug, PartialEq, Eq, Structural)]
pub enum WriteProgress {
    /// Every sample has been handed over.
    Done,
    /// Some samples were accepted and more remain: call again at once.
    Retry,
    /// The buffer is full: wait a moment, then call again.
    Wait,
}

/// The producer and consumer ends of the output buffer, with the device's
/// stream parameters.
pub struct AudioOutput {
    ring: SampleRing,
    size: usize,
    sample_rate: u32,
    channels: u16,
    clear_flag: bool,
    accepted: Ghost<Seq<u32>>,
    released: Ghost<nat>,
}

/// Capacity of the sample buffer of a device: a quarter second of stereo
/// audio at the device's rate, but at least one sample and at most
/// `MAX_RING_CAPACITY`.
pub open spec fn capacity_for(sample_rate: u32) -> int {
    let wanted = sample_rate * 2 / 4;
    if wanted < 1 {
        1
    } else if wanted > MAX_RING_CAPACITY {
        MAX_RING_CAPACITY as int
    } else {
        wanted
    }
}

/// `count` samples of silence.
pub open spec fn silence(count: nat) -> Seq<u32> {
    Seq::new(count, |i: int| SILENCE)
}

/// The smaller of two lengths.
pub open spec fn shorter(a: int, b: int) -> int {
    if a <= b {
        a
    } else {
        b
    }
}

impl AudioOutput {
    /// The samples waiting to be played, oldest first.
    pub closed spec fn buffered(&self) -> Seq<u32> {
        ring_items(self.ring)
    }

    /// The most samples the buffer can hold.
    pub closed spec fn capacity(&self) -> nat {
        ring_capacity(self.ring)
    }

    /// Whether the next `render` will first discard what is buffered.
    pub closed spec fn clear_pending(&self) -> bool {
        self.clear_flag
    }

    /// Every sample the buffer has ever accepted, in order of arrival.
    pub closed spec fn history(&self) -> Seq<u32> {
        self.accepted@
    }

    /// How many samples of the history have left the buffer, played or discarded.
    pub closed spec fn released(&self) -> nat {
        self.released@
    }

    /// Sample rate of the device, in Hz.
    pub closed spec fn rate(&self) -> u32 {
        self.sample_rate
    }

    /// Channel count of the device.
    pub closed spec fn channel_count(&self) -> u16 {
        self.channels
    }

    /// Room left in the buffer.
    pub open spec fn vacant(&self) -> int {
        self.capacity() - self.buffered().len()
    }

    /// The buffer holds exactly the part of its history that has not been
    /// released, and that part fits its capacity.
    pub closed spec fn wf(&self) -> bool {
        &&& 0 < ring_capacity(self.ring)
        &&& ring_capacity(self.ring) == self.size
        &&& self.released@ <= self.accepted@.len()
        &&& ring_items(self.ring) == self.accepted@.skip(self.released@ as int)
        &&& ring_items(self.ring).len() <= ring_capacity(self.ring)
    }

    /// Nothing is ever overwritten and nothing is read twice: what is buffered
    /// is exactly the stretch of the history that has not been released yet,
    /// in the order in which it arrived, and it never exceeds the capacity.
    pub proof fn unread_samples_are_kept_in_order(&self)
        requires
            self.wf(),
        ensures
            0 < self.capacity() <= usize::MAX,
            self.released() <= self.history().len(),
            self.buffered() == self.history().skip(self.released() as int),
            self.buffered().len() <= self.capacity(),
            self.history().len() - self.released() <= self.capacity(),
    {
    }

    /// An empty output buffer for a device running at `sample_rate` with
    /// `channels` channels.  It holds a quarter second of stereo audio at
    /// that rate: `RING_BUFFER_SIZE` samples at 48 kHz.
    pub fn new(sample_rate: u32, channels: u16) -> (out: AudioOutput)
        ensures
            out.wf(),
            out.buffered() == Seq::<u32>::empty(),
            out.history() == Seq::<u32>::empty(),
            out.released() == 0,
            out.capacity() == capacity_for(sample_rate),
            sample_rate == 48_000 ==> out.capacity() == RING_BUFFER_SIZE,
            out.rate() == sample_rate,
            out.channel_count() == channels,
            !out.clear_pending(),
    {
        let wanted: u64 = sample_rate as u64 * 2 / 4;
        let capacity: usize = if wanted < 1 {
            1
        } else if wanted > MAX_RING_CAPACITY as u64 {
            MAX_RING_CAPACITY
        } else {
            wanted as usize
        };
        let ring = ring_with_capacity(capacity);
        proof {
            assert(Seq::<u32>::empty().skip(0) =~= Seq::<u32>::empty());
        }
        AudioOutput {
            ring,
            size: capacity,
            sample_rate,
            channels,
            clear_flag: false,
            accepted: Ghost(Seq::empty()),
            released: Ghost(0),
        }
    }

    /// Appends as many of `samples` as fit and returns how many that was.
    /// Samples that do not fit are not taken; nothing buffered is touched.
    pub fn write(&mut self, samples: &[u32]) -> (written: usize)
        requires
            old(self).wf(),
        ensures
            final(self).wf(),
            written == shorter(samples@.len() as int, old(self).vacant()),
            final(self).buffered() == old(self).buffered() + samples@.subrange(0, written as int),
            final(self).history() == old(self).history() + samples@.subrange(0, written as int),
            final(self).released() == old(self).released(),
            final(self).capacity() == old(self).capacity(),
            final(self).clear_pending() == old(self).clear_pending(),
            final(self).rate() == old(self).rate(),
            final(self).channel_count() == old(self).channel_count(),
    {
        let mut written: usize = 0;
        while written < samples.len()
            invariant
                self.wf(),
                written <= samples@.len(),
                written <= old(self).vacant(),
                self.buffered() == old(self).buffered() + samples@.subrange(0, written as int),
                self.history() == old(self).history() + samples@.subrange(0, written as int),
                self.released() == old(self).released(),
                self.capacity() == old(self).capacity(),
                self.clear_pending() == old(self).clear_pending(),
                self.rate() == old(self).rate(),
                self.channel_count() == old(self).channel_count(),
            ensures
                written == shorter(samples@.len() as int, old(self).vacant()),
            decreases samples@.len() - written,
        {
            let sample = samples[written];
            let ghost before = self.buffered();
            if ring_push(&mut self.ring, sample) {
                proof {
                    self.accepted@ = self.accepted@.push(sample);
                    assert(samples@.subrange(0, written as int).push(sample) =~= samples@.subrange(
                        0,
                        written + 1,
                    ));
                    assert(self.accepted@ =~= old(self).history() + samples@.subrange(
                        0,
                        written + 1,
                    ));
                    assert(self.buffered() =~= old(self).buffered() + samples@.subrange(
                        0,
                        written + 1,
                    ));
                    assert(self.accepted@.skip(self.released@ as int) =~= before.push(sample));
                }
                written = written + 1;
            } else {
                break ;
            }
        }
        written
    }

    /// One turn of a blocking write of `samples`, of which the first `offset`
    /// have already been handed over.  Returns the new offset and what to do
    /// next.  The caller sleeps between turns that end in `Wait`, which paces
    /// decoding to the speed of playback, and may give up between turns.
    pub fn write_blocking(&mut self, samples: &[u32], offset: usize) -> (turn: (
        usize,
        WriteProgress,
    ))
        requires
            old(self).wf(),
            offset <= samples@.len(),
        ensures
            final(self).wf(),
            turn.0 == offset + shorter(samples@.len() - offset, old(self).vacant()),
            final(self).buffered() == old(self).buffered() + samples@.subrange(
                offset as int,
                turn.0 as int,
            ),
            final(self).history() == old(self).history() + samples@.subrange(
                offset as int,
                turn.0 as int,
            ),
            final(self).released() == old(self).released(),
            final(self).capacity() == old(self).capacity(),
            final(self).clear_pending() == old(self).clear_pending(),
            final(self).rate() == old(self).rate(),
            final(self).channel_count() == old(self).channel_count(),
            turn.1 == (if turn.0 == samples@.len() {
                WriteProgress::Done
            } else if turn.0 > offset {
                WriteProgress::Retry
            } else {
                WriteProgress::Wait
            }),
    {
        let rest = vstd::slice::slice_subrange(samples, offset, samples.len());
        let written = self.write(rest);
        let reached = offset + written;
        proof {
            assert(rest@.subrange(0, written as int) =~= samples@.subrange(
                offset as int,
                reached as int,
            ));
        }
        let progress = if reached == samples.len() {
            WriteProgress::Done
        } else if written > 0 {
            WriteProgress::Retry
        } else {
            WriteProgress::Wait
        };
        (reached, progress)
    }

    /// The most samples the buffer can hold.
    pub fn buffer_size(&self) -> (size: usize)
        requires
            self.wf(),
        ensures
            size == self.capacity(),
    {
        self.size
    }

    /// Whether nothing is waiting to be played.
    pub fn is_drained(&self) -> (drained: bool)
        requires
            self.wf(),
        ensures
            drained == (self.buffered().len() == 0),
    {
        ring_vacant(&self.ring) == self.size
    }

    /// Room left in the buffer, in samples.
    pub fn available_space(&self) -> (free: usize)
        requires
            self.wf(),
        ensures
            free == self.vacant(),
    {
        ring_vacant(&self.ring)
    }

    /// Asks the next `render` to discard whatever is buffered, so that audio
    /// from before a seek is not played.
    pub fn clear(&mut self)
        ensures
            final(self).clear_pending(),
            final(self).wf() == old(self).wf(),
            final(self).buffered() == old(self).buffered(),
            final(self).history() == old(self).history(),
            final(self).released() == old(self).released(),
            final(self).capacity() == old(self).capacity(),
            final(self).rate() == old(self).rate(),
            final(self).channel_count() == old(self).channel_count(),
    {
        self.clear_flag = true;
    }

    /// Sample rate of the device, in Hz.
    pub fn sample_rate(&self) -> (rate: u32)
        ensures
            rate == self.rate(),
    {
        self.sample_rate
    }

    /// Channel count of the device.
    pub fn channels(&self) -> (count: u16)
        ensures
            count == self.channel_count(),
    {
        self.channels
    }

    /// Removes every buffered sample.
    fn drain(&mut self)
        requires
            old(self).wf(),
        ensures
            final(self).wf(),
            final(self).buffered() == Seq::<u32>::empty(),
            final(self).history() == old(self).history(),
            final(self).released() == old(self).history().len(),
            final(self).capacity() == old(self).capacity(),
            final(self).clear_pending() == old(self).clear_pending(),
            final(self).rate() == old(self).rate(),
            final(self).channel_count() == old(self).channel_count(),
    {
        loop
            invariant
                self.wf(),
                self.history() == old(self).history(),
                self.capacity() == old(self).capacity(),
                self.clear_pending() == old(self).clear_pending(),
                self.rate() == old(self).rate(),
                self.channel_count() == old(self).channel_count(),
            ensures
                self.buffered() == Seq::<u32>::empty(),
            decreases self.buffered().len(),
        {
            let ghost before = self.buffered();
            match ring_pop(&mut self.ring) {
                Some(_) => {
                    proof {
                        self.released@ = self.released@ + 1;
                        assert(self.accepted@.skip(self.released@ as int) =~= before.drop_first());
                    }
                },
                None => {
                    break ;
                },
            }
        }
    }

    /// The device callback: fills `out` with the oldest buffered samples and,
    /// where the buffer runs dry, with silence.  A pending clear is honoured
    /// first, so that nothing buffered before it is played.
    pub fn render(&mut self, out: &mut [u32])
        requires
            old(self).wf(),
        ensures
            final(self).wf(),
            final(out)@.len() == old(out)@.len(),
            !final(self).clear_pending(),
            final(self).history() == old(self).history(),
            final(self).capacity() == old(self).capacity(),
            final(self).rate() == old(self).rate(),
            final(self).channel_count() == old(self).channel_count(),
            ({
                let source = if old(self).clear_pending() {
                    Seq::<u32>::empty()
                } else {
                    old(self).buffered()
                };
                let taken = shorter(old(out)@.len() as int, source.len() as int);
                &&& final(out)@ == source.subrange(0, taken) + silence(
                    (old(out)@.len() - taken) as nat,
                )
                &&& final(self).buffered() == source.subrange(taken, source.len() as int)
                &&& !old(self).clear_pending() ==> final(out)@.subrange(0, taken) == old(
                    self,
                ).history().subrange(old(self).released() as int, old(self).released() + taken)
                &&& final(self).released() + final(self).buffered().len() == final(self).history().len()
            }),
    {
        if self.clear_flag {
            self.drain();
            self.clear_flag = false;
        }
        let ghost source = self.buffered();
        let ghost start = self.released@;
        let count = out.len();
        let mut i: usize = 0;
        while i < count
            invariant
                self.wf(),
                count == out@.len(),
                count == old(out)@.len(),
                i <= count,
                !self.clear_pending(),
                self.history() == old(self).history(),
                self.capacity() == old(self).capacity(),
                self.rate() == old(self).rate(),
                self.channel_count() == old(self).channel_count(),
                self.buffered() == source.subrange(
                    shorter(i as int, source.len() as int),
                    source.len() as int,
                ),
                out@.subrange(0, i as int) == source.subrange(
                    0,
                    shorter(i as int, source.len() as int),
                ) + silence((i - shorter(i as int, source.len() as int)) as nat),
            decreases count - i,
        {
            let ghost before = self.buffered();
            let ghost filled = out@.subrange(0, i as int);
            let value = match ring_pop(&mut self.ring) {
                Some(sample) => {
                    proof {
                        self.released@ = self.released@ + 1;
                        assert(self.accepted@.skip(self.released@ as int) =~= before.drop_first());
                    }
                    sample
                },
                None => SILENCE,
            };
            out[i] = value;
            proof {
                assert(out@.subrange(0, i + 1) =~= filled.push(value));
                let k = shorter(i as int, source.len() as int);
                let k2 = shorter(i + 1, source.len() as int);
                assert(self.buffered() =~= source.subrange(k2, source.len() as int));
                assert(filled.push(value) =~= source.subrange(0, k2) + silence((i + 1 - k2) as nat));
            }
            i = i + 1;
        }
        proof {
            assert(out@.subrange(0, count as int) =~= out@);
            self.unread_samples_are_kept_in_order();
            if !old(self).clear_pending() {
                old(self).unread_samples_are_kept_in_order();
                let taken = shorter(count as int, source.len() as int);
                assert(out@.subrange(0, taken) =~= old(self).history().subrange(
                    old(self).released() as int,
                    old(self).released() + taken,
                ));
            }
        }
    }
}

} // verus!
