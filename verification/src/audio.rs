//! Audio pipeline.
//!
//! Until the outgoing audio stream is attached, samples are buffered in a
//! bounded queue; when the buffer is full the oldest sample is dropped, never
//! blocking the producer.  On attach, the buffered samples drain in order and
//! later samples write through directly.

use vstd::prelude::*;

verus! {

/// Where a submitted audio sample went.
pub enum AudioDisposition {
    /// The stream is attached: the sample must be written through now.
    WriteThrough(Vec<u8>),
    /// The stream is not attached yet: the sample was buffered.
    Buffered,
    /// The buffer was full: the oldest sample was dropped to make room.
    BufferedDroppingOldest(Vec<u8>),
    /// The pipeline cannot hold samples (zero capacity): the sample was
    /// dropped.
    Dropped,
}

/// Whether a sample rate is on the supported list.
pub open spec fn spec_sample_rate_supported(rate: u32) -> bool {
    rate == 80_000 || rate == 12_000 || rate == 16_000 || rate == 24_000 || rate == 48_000
}

/// Whether a sample rate is on the supported list; an unsupported rate is
/// only warned about, never refused.
pub fn sample_rate_supported(rate: u32) -> (r: bool)
    ensures
        r == spec_sample_rate_supported(rate),
{
    rate == 80_000 || rate == 12_000 || rate == 16_000 || rate == 24_000 || rate == 48_000
}

/// The sender-side state of the audio path.
pub struct AudioPipeline {
    /// Whether the outgoing stream is attached.
    pub attached: bool,
    /// Samples buffered while the stream is not attached, oldest first.
    pub buffer: Vec<Vec<u8>>,
    /// The configured queue depth.
    pub capacity: usize,
    /// Whether audio setup has completed.
    pub configured: bool,
}

impl AudioPipeline {
    /// A fresh pipeline with the configured queue depth.
    pub fn new(capacity: usize) -> (r: AudioPipeline)
        ensures
            !r.attached,
            r.buffer@.len() == 0,
            r.capacity == capacity,
            !r.configured,
    {
        AudioPipeline { attached: false, buffer: Vec::new(), capacity, configured: false }
    }

    /// Complete audio setup.  Setup succeeds (result zero) exactly when the
    /// stream writer is available; the sample rate is validated against the
    /// supported list but a mismatch is only warned about.  Audio setup does
    /// not depend on the video format mask in any way.
    pub fn setup(&mut self, sample_rate: u32, writer_available: bool) -> (r: i32)
        ensures
            r == if writer_available {
                0i32
            } else {
                -1i32
            },
            final(self).configured == (old(self).configured || writer_available),
            final(self).attached == old(self).attached,
            final(self).buffer == old(self).buffer,
            final(self).capacity == old(self).capacity,
    {
        let _rate_on_list = sample_rate_supported(sample_rate);
        if writer_available {
            self.configured = true;
            0
        } else {
            -1
        }
    }

    /// Submit one sample.  With the stream attached it writes through; while
    /// detached it is buffered, dropping the oldest sample when the buffer is
    /// full.
    pub fn submit_sample(&mut self, data: Vec<u8>) -> (r: AudioDisposition)
        ensures
            final(self).attached == old(self).attached,
            final(self).capacity == old(self).capacity,
            final(self).configured == old(self).configured,
            match r {
                AudioDisposition::WriteThrough(out) => old(self).attached && out == data && final(self).buffer == old(self).buffer,
                AudioDisposition::Buffered => !old(self).attached && old(self).buffer@.len() < old(self).capacity && final(self).buffer@ == old(self).buffer@.push(data),
                AudioDisposition::BufferedDroppingOldest(dropped) => {
                    &&& !old(self).attached
                    &&& old(self).buffer@.len() >= old(self).capacity
                    &&& old(self).capacity > 0
                    &&& dropped == old(self).buffer@[0]
                    &&& final(self).buffer@ == old(self).buffer@.subrange(
                        1,
                        old(self).buffer@.len() as int,
                    ).push(data)
                },
                AudioDisposition::Dropped => !old(self).attached && old(self).capacity == 0
                    && final(self).buffer == old(self).buffer,
            },
    {
        if self.attached {
            return AudioDisposition::WriteThrough(data);
        }
        if self.capacity == 0 {
            return AudioDisposition::Dropped;
        }
        if self.buffer.len() < self.capacity {
            self.buffer.push(data);
            AudioDisposition::Buffered
        } else {
            let dropped = self.buffer.remove(0);
            self.buffer.push(data);
            AudioDisposition::BufferedDroppingOldest(dropped)
        }
    }

    /// Attach the outgoing stream and drain the buffer.  The drained samples
    /// come back in submission order, oldest first, and must be written to
    /// the stream before any further sample.
    pub fn attach_stream(&mut self) -> (r: Vec<Vec<u8>>)
        ensures
            final(self).attached,
            final(self).buffer@.len() == 0,
            final(self).capacity == old(self).capacity,
            final(self).configured == old(self).configured,
            r@ == old(self).buffer@,
    {
        self.attached = true;
        let mut drained: Vec<Vec<u8>> = Vec::new();
        core::mem::swap(&mut drained, &mut self.buffer);
        drained
    }

    /// A drain stopped partway: the first `written` drained samples reached
    /// the stream, the rest go back into the buffer in their old order,
    /// ahead of anything buffered since, and await the next drain.
    pub fn restore_unwritten(&mut self, drained: Vec<Vec<u8>>, written: usize)
        requires
            written <= drained@.len(),
        ensures
            final(self).attached == old(self).attached,
            final(self).capacity == old(self).capacity,
            final(self).configured == old(self).configured,
            final(self).buffer@ == drained@.skip(written as int) + old(self).buffer@,
    {
        let ghost orig = drained@;
        let mut rest = drained;
        let mut restored: Vec<Vec<u8>> = Vec::new();
        proof {
            assert(restored@ =~= orig.subrange(written as int, written as int));
            assert(rest@ =~= orig.take(written as int) + orig.skip(
                written as int + restored@.len(),
            ));
        }
        while rest.len() > written
            invariant
                written <= orig.len(),
                restored@ =~= orig.subrange(written as int, written as int + restored@.len()),
                written + restored@.len() <= orig.len(),
                rest@ =~= orig.take(written as int) + orig.skip(
                    written as int + restored@.len(),
                ),
                self.attached == old(self).attached,
                self.capacity == old(self).capacity,
                self.configured == old(self).configured,
                self.buffer == old(self).buffer,
            decreases rest@.len(),
        {
            let ghost pre_rest = rest@;
            let ghost done = restored@.len() as int;
            let sample = rest.remove(written);
            restored.push(sample);
            proof {
                assert(pre_rest[written as int] == orig[written as int + done]);
                assert(restored@ =~= orig.subrange(
                    written as int,
                    written as int + restored@.len(),
                ));
                assert(rest@ =~= orig.take(written as int) + orig.skip(
                    written as int + restored@.len(),
                ));
            }
        }
        proof {
            assert(restored@ =~= orig.skip(written as int));
        }
        let ghost pre_buf = self.buffer@;
        let mut tail: Vec<Vec<u8>> = Vec::new();
        core::mem::swap(&mut tail, &mut self.buffer);
        let ghost tail_orig = tail@;
        while tail.len() > 0
            invariant
                tail@.len() <= tail_orig.len(),
                written <= orig.len(),
                restored@ =~= orig.skip(written as int) + tail_orig.take(
                    tail_orig.len() - tail@.len(),
                ),
                tail@ =~= tail_orig.skip(tail_orig.len() - tail@.len()),
                self.attached == old(self).attached,
                self.capacity == old(self).capacity,
                self.configured == old(self).configured,
            decreases tail@.len(),
        {
            let ghost pre_tail = tail@;
            let ghost done = tail_orig.len() - tail@.len();
            let sample = tail.remove(0);
            restored.push(sample);
            proof {
                assert(pre_tail =~= tail_orig.skip(done as int));
                assert(tail_orig.skip(done as int)[0] == tail_orig[done as int]);
                assert(pre_tail[0] == tail_orig[done as int]);
                assert(restored@ =~= orig.skip(written as int) + tail_orig.take(done as int + 1));
                assert(tail@ =~= tail_orig.skip(tail_orig.len() - tail@.len()));
            }
        }
        proof {
            assert(tail_orig.take(tail_orig.len() as int) =~= tail_orig);
            assert(restored@ =~= orig.skip(written as int) + pre_buf);
        }
        self.buffer = restored;
    }
}

} // verus!
