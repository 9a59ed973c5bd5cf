//! Regrouping of a batch from sample-major to channel-major order.
//!
//! The capture path keeps one record per sample, with a value for every
//! channel; the wire layout wants one run of samples per channel.  On the
//! way the values are narrowed from binary64 to binary32.

use crate::data_types::{
    samples_view, BatchView, ChannelSamples, ChannelView, EegBatch, OptimizedEegBatch,
    OptimizedView, SampleView,
};
use crate::float_bits::{f32_bits_of_f64, narrow_f64_to_f32};
use vstd::prelude::*;

verus! {

/// The narrowed values of channel `c` in a run of samples, in order.  A
/// sample that has no such channel contributes nothing.
pub open spec fn channel_values(samples: Seq<SampleView>, c: int) -> Seq<u32>
    decreases samples.len(),
{
    if samples.len() == 0 {
        Seq::<u32>::empty()
    } else {
        let front = channel_values(samples.drop_last(), c);
        if c < samples.last().channels.len() {
            front.push(f32_bits_of_f64(samples.last().channels[c]) as u32)
        } else {
            front
        }
    }
}

/// The rows of a batch: for each of `count` channels its narrowed values.
pub open spec fn channel_rows(samples: Seq<SampleView>, count: nat) -> Seq<Seq<u32>> {
    Seq::new(count, |c: int| channel_values(samples, c))
}

/// A batch regrouped by channel: one block for each channel that the batch
/// declares, in channel order.  The blocks of a batch without samples hold
/// no samples.
pub open spec fn optimized_of(batch: BatchView, batch_id: u64, timestamp: u64) -> OptimizedView {
    OptimizedView {
        batch_id,
        timestamp,
        channels_count: batch.channels_count,
        samples_per_channel: batch.samples.len() as u32,
        sample_rate: batch.sample_rate,
        channel_data: Seq::new(
            batch.channels_count as nat,
            |c: int|
                ChannelView {
                    channel_index: c as u32,
                    samples: channel_values(batch.samples, c),
                },
        ),
    }
}

/// Every sample of the batch has a value for each channel that the batch
/// declares.
pub open spec fn aligned(batch: BatchView) -> bool {
    forall|i: int|
        0 <= i < batch.samples.len() ==> (#[trigger] batch.samples[i]).channels.len()
            >= batch.channels_count
}

/// A channel that every sample has a value for gets one value per sample.
pub proof fn lemma_channel_values_len(samples: Seq<SampleView>, c: int)
    requires
        forall|i: int| 0 <= i < samples.len() ==> c < (#[trigger] samples[i]).channels.len(),
    ensures
        channel_values(samples, c).len() == samples.len(),
    decreases samples.len(),
{
    if samples.len() > 0 {
        let front = samples.drop_last();
        assert forall|i: int| 0 <= i < front.len() implies c < (
        #[trigger] front[i]).channels.len() by {
            assert(front[i] == samples[i]);
        }
        lemma_channel_values_len(front, c);
    }
}

/// The regrouped form of an aligned batch holds, in every channel block, as
/// many samples as it says: it is fit for the wire layout.
pub proof fn lemma_aligned_batch_regroups_evenly(batch: BatchView, batch_id: u64, timestamp: u64)
    requires
        aligned(batch),
        batch.samples.len() <= u32::MAX,
    ensures
        crate::binary_frame::frame_readable(optimized_of(batch, batch_id, timestamp)),
{
    let out = optimized_of(batch, batch_id, timestamp);
    assert forall|c: int| 0 <= c < out.channel_data.len() implies (
    #[trigger] out.channel_data[c]).samples.len() == out.samples_per_channel by {
        lemma_channel_values_len(batch.samples, c);
    }
}

/// A fresh vector with the same values.
fn copy_row(values: &Vec<u32>) -> (out: Vec<u32>)
    ensures
        out@ == values@,
{
    let mut out: Vec<u32> = Vec::new();
    let mut i: usize = 0;
    while i < values.len()
        invariant
            i <= values.len(),
            out@ == values@.take(i as int),
        decreases values.len() - i,
    {
        out.push(values[i]);
        i += 1;
        assert(out@ =~= values@.take(i as int));
    }
    assert(values@.take(values.len() as int) =~= values@);
    out
}

/// `count` empty rows.
fn empty_rows(count: usize) -> (out: Vec<Vec<u32>>)
    ensures
        out.len() == count,
        forall|c: int| 0 <= c < count ==> (#[trigger] out[c])@ == Seq::<u32>::empty(),
{
    let mut out: Vec<Vec<u32>> = Vec::new();
    let mut c: usize = 0;
    while c < count
        invariant
            c <= count,
            out.len() == c,
            forall|k: int| 0 <= k < c ==> (#[trigger] out[k])@ == Seq::<u32>::empty(),
        decreases count - c,
    {
        out.push(Vec::with_capacity(128));
        c += 1;
    }
    out
}

/// Regroups batches, with one scratch row per channel that is kept between
/// calls.
pub struct DataConverter {
    channel_buffers: Vec<Vec<u32>>,
}

impl DataConverter {
    /// The scratch rows, in channel order.
    pub closed spec fn rows(&self) -> Seq<Seq<u32>> {
        Seq::new(self.channel_buffers.len() as nat, |c: int| self.channel_buffers[c]@)
    }

    /// A converter with `channels_count` empty rows.
    pub fn new(channels_count: usize) -> (out: DataConverter)
        ensures
            out.rows() == Seq::new(channels_count as nat, |c: int| Seq::<u32>::empty()),
    {
        let out = DataConverter { channel_buffers: empty_rows(channels_count) };
        assert(out.rows() =~= Seq::new(channels_count as nat, |c: int| Seq::<u32>::empty()));
        out
    }

    /// Makes the number of rows `new_channels_count`.  Where that is a
    /// change, all rows start empty; otherwise they stay as they are.
    pub fn resize_for_channels(&mut self, new_channels_count: usize)
        ensures
            final(self).rows() == if new_channels_count == old(self).rows().len() {
                old(self).rows()
            } else {
                Seq::new(new_channels_count as nat, |c: int| Seq::<u32>::empty())
            },
    {
        if new_channels_count != self.channel_buffers.len() {
            self.channel_buffers = empty_rows(new_channels_count);
            assert(self.rows() =~= Seq::new(
                new_channels_count as nat,
                |c: int| Seq::<u32>::empty(),
            ));
        }
    }

    /// Regroups a batch by channel, under the given batch id and timestamp.
    ///
    /// There is one block for each channel that the batch declares.  Block
    /// `c` holds the narrowed values of channel `c`, sample by sample, and
    /// none where the batch has no samples; values of channels that the batch
    /// does not declare are left out.  The scratch rows are left holding the
    /// blocks' samples.
    pub fn convert_eeg_batch_to_optimized(
        &mut self,
        eeg_batch: &EegBatch,
        batch_id: u64,
        timestamp: u64,
    ) -> (out: OptimizedEegBatch)
        requires
            eeg_batch.samples.len() <= u32::MAX,
        ensures
            out@ == optimized_of(eeg_batch@, batch_id, timestamp),
            final(self).rows() == channel_rows(
                eeg_batch@.samples,
                eeg_batch.channels_count as nat,
            ),
    {
        let channels_count = eeg_batch.channels_count as usize;
        let samples_per_channel = eeg_batch.samples.len() as u32;
        self.resize_for_channels(channels_count);
        assert(self.rows().len() == channels_count);
        let mut c: usize = 0;
        while c < channels_count
            invariant
                c <= channels_count,
                self.channel_buffers.len() == channels_count,
                forall|k: int|
                    0 <= k < c ==> (#[trigger] self.channel_buffers[k])@ == Seq::<u32>::empty(),
            decreases channels_count - c,
        {
            self.channel_buffers[c].clear();
            c += 1;
        }
        let ghost all = samples_view(eeg_batch.samples@);
        let mut i: usize = 0;
        while i < eeg_batch.samples.len()
            invariant
                i <= eeg_batch.samples.len(),
                all == samples_view(eeg_batch.samples@),
                self.channel_buffers.len() == channels_count,
                forall|c: int|
                    0 <= c < channels_count ==> (#[trigger] self.channel_buffers[c])@
                        == channel_values(all.take(i as int), c),
            decreases eeg_batch.samples.len() - i,
        {
            let sample = &eeg_batch.samples[i];
            let ghost upto = all.take(i + 1);
            proof {
                assert(upto.drop_last() =~= all.take(i as int));
                assert(upto.last() == sample@);
            }
            let mut ch: usize = 0;
            while ch < sample.channels.len() && ch < channels_count
                invariant
                    ch <= sample.channels.len(),
                    ch <= channels_count,
                    self.channel_buffers.len() == channels_count,
                    upto.len() > 0,
                    upto.last() == sample@,
                    upto.drop_last() == all.take(i as int),
                    forall|c: int|
                        0 <= c < ch ==> (#[trigger] self.channel_buffers[c])@ == channel_values(
                            upto,
                            c,
                        ),
                    forall|c: int|
                        ch <= c < channels_count ==> (#[trigger] self.channel_buffers[c])@
                            == channel_values(all.take(i as int), c),
                decreases channels_count - ch,
            {
                let narrowed = narrow_f64_to_f32(sample.channels[ch]);
                self.channel_buffers[ch].push(narrowed);
                ch += 1;
            }
            i += 1;
        }
        assert(all.take(eeg_batch.samples.len() as int) =~= all);
        let mut channel_data: Vec<ChannelSamples> = Vec::new();
        let mut c: usize = 0;
        while c < channels_count
            invariant
                c <= channels_count,
                channels_count == eeg_batch.channels_count,
                self.channel_buffers.len() == channels_count,
                channel_data.len() == c,
                forall|k: int|
                    0 <= k < channels_count ==> (#[trigger] self.channel_buffers[k])@
                        == channel_values(all, k),
                forall|k: int|
                    0 <= k < c ==> (#[trigger] channel_data[k])@ == (ChannelView {
                        channel_index: k as u32,
                        samples: channel_values(all, k),
                    }),
            decreases channels_count - c,
        {
            let samples = copy_row(&self.channel_buffers[c]);
            channel_data.push(ChannelSamples { channel_index: c as u32, samples });
            c += 1;
        }
        let out = OptimizedEegBatch {
            batch_id,
            timestamp,
            channels_count: eeg_batch.channels_count,
            samples_per_channel,
            sample_rate: eeg_batch.sample_rate,
            channel_data,
        };
        assert(out@.channel_data =~= optimized_of(eeg_batch@, batch_id, timestamp).channel_data);
        assert(self.rows() =~= channel_rows(eeg_batch@.samples, eeg_batch.channels_count as nat));
        out
    }
}

} // verus!
