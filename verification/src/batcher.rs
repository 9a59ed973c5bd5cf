//! Grouping of the sample stream into display batches.
//!
//! Samples are gathered between ticks.  Every tick turns what was gathered
//! into one batch under the next batch id, and, if the batch is not empty,
//! into a trigger for the spectral analysis that carries the same id and
//! the same samples.

use crate::data_types::{copy_samples, samples_view, BatchView, EegBatch, EegSample, SampleView};
use vstd::prelude::*;

verus! {

/// The display cadence in milliseconds.
pub const FRAME_INTERVAL_MS: u64 = 33;

/// What a tick hands to the two legs of the pipeline.
#[derive(Clone, Debug, PartialEq, Eq)]
pub struct BatchOutput {
    /// The batch for the display leg, if one is emitted.
    pub batch: Option<EegBatch>,
    /// The id and samples for the spectral leg, if the batch has samples.
    pub trigger: Option<(u64, Vec<EegSample>)>,
    /// Whether the batcher has flushed for the last time.
    pub finished: bool,
}

/// The samples of a run of batches, batch after batch.
pub open spec fn end_to_end(batches: Seq<BatchView>) -> Seq<SampleView>
    decreases batches.len(),
{
    if batches.len() == 0 {
        Seq::<SampleView>::empty()
    } else {
        end_to_end(batches.drop_last()) + batches.last().samples
    }
}

/// The samples of the first batches of a run are the first samples of the
/// run.
pub proof fn lemma_end_to_end_of_prefix(first: Seq<BatchView>, all: Seq<BatchView>)
    requires
        first.is_prefix_of(all),
    ensures
        end_to_end(first).is_prefix_of(end_to_end(all)),
    decreases all.len(),
{
    if first.len() == all.len() {
        assert(first =~= all);
    } else {
        let front = all.drop_last();
        assert(first.is_prefix_of(front));
        lemma_end_to_end_of_prefix(first, front);
    }
}

/// The accumulator and the batch counter.
pub struct TimeDomainBatcher {
    current_batch: Vec<EegSample>,
    batch_id: u64,
    channels_count: u32,
    sample_rate: u64,
    gathered: Ghost<Seq<SampleView>>,
    released: Ghost<Seq<SampleView>>,
    batches: Ghost<Seq<BatchView>>,
}

impl TimeDomainBatcher {
    /// All samples gathered so far, in arrival order.
    pub closed spec fn gathered(&self) -> Seq<SampleView> {
        self.gathered@
    }

    /// The samples of all batches emitted so far, batch after batch.
    pub closed spec fn released(&self) -> Seq<SampleView> {
        self.released@
    }

    /// The batches emitted so far, in the order of emission.
    pub closed spec fn batches(&self) -> Seq<BatchView> {
        self.batches@
    }

    /// Every sample gathered so far has either left in a batch or waits for
    /// the next one, and the order of arrival is kept throughout.  The
    /// batches emitted so far carry the ids from 0 on, without a gap.
    pub open spec fn wf(&self) -> bool {
        &&& self.gathered() == self.released() + self.pending()
        &&& self.released() == end_to_end(self.batches())
        &&& self.batches().len() == self.next_id()
        &&& forall|i: int|
            0 <= i < self.batches().len() ==> (#[trigger] self.batches()[i]).batch_id == i
    }

    /// The samples gathered since the last tick, in arrival order.
    pub closed spec fn pending(&self) -> Seq<SampleView> {
        samples_view(self.current_batch@)
    }

    /// The id that the next batch will carry.
    pub closed spec fn next_id(&self) -> u64 {
        self.batch_id
    }

    /// The channel count stamped on every batch.
    pub closed spec fn channels(&self) -> u32 {
        self.channels_count
    }

    /// The sample rate stamped on every batch, as binary64 bits.
    pub closed spec fn rate(&self) -> u64 {
        self.sample_rate
    }

    /// The batch that a tick makes of the gathered samples.
    pub open spec fn batch_of(&self) -> BatchView {
        BatchView {
            samples: self.pending(),
            batch_id: self.next_id(),
            channels_count: self.channels(),
            sample_rate: self.rate(),
        }
    }

    /// A batcher with nothing gathered, whose first batch has id 0.
    pub fn new(channels_count: u32, sample_rate: u64) -> (out: TimeDomainBatcher)
        ensures
            out.wf(),
            out.pending() == Seq::<SampleView>::empty(),
            out.gathered() == Seq::<SampleView>::empty(),
            out.released() == Seq::<SampleView>::empty(),
            out.batches() == Seq::<BatchView>::empty(),
            out.next_id() == 0,
            out.channels() == channels_count,
            out.rate() == sample_rate,
    {
        let out = TimeDomainBatcher {
            current_batch: Vec::new(),
            batch_id: 0,
            channels_count,
            sample_rate,
            gathered: Ghost(Seq::empty()),
            released: Ghost(Seq::empty()),
            batches: Ghost(Seq::empty()),
        };
        assert(out.pending() =~= Seq::<SampleView>::empty());
        assert(out.gathered() =~= out.released() + out.pending());
        out
    }

    /// The id that the next batch will carry.
    pub fn next_batch_id(&self) -> (id: u64)
        ensures
            id == self.next_id(),
    {
        self.batch_id
    }

    /// The number of samples gathered since the last tick.
    pub fn pending_len(&self) -> (n: usize)
        ensures
            n == self.pending().len(),
    {
        self.current_batch.len()
    }

    /// Gathers one sample.
    pub fn push(&mut self, sample: EegSample)
        requires
            old(self).wf(),
        ensures
            final(self).wf(),
            final(self).pending() == old(self).pending().push(sample@),
            final(self).gathered() == old(self).gathered().push(sample@),
            final(self).released() == old(self).released(),
            final(self).batches() == old(self).batches(),
            final(self).next_id() == old(self).next_id(),
            final(self).channels() == old(self).channels(),
            final(self).rate() == old(self).rate(),
    {
        self.current_batch.push(sample);
        proof {
            self.gathered@ = self.gathered@.push(sample@);
        }
        assert(self.pending() =~= old(self).pending().push(sample@));
        assert(self.gathered() =~= self.released() + self.pending());
    }

    /// One tick of the batch timer.
    ///
    /// While the pipeline runs, every tick emits a batch, empty or not.  At
    /// shutdown only a batch with samples is emitted, as the last one.  An
    /// emitted batch holds exactly the samples gathered since the previous
    /// tick, in order, and takes the next batch id; a trigger with the same
    /// id and samples goes with it unless it is empty.  Afterwards nothing
    /// is left in the accumulator.
    pub fn tick(&mut self, running: bool) -> (out: BatchOutput)
        requires
            old(self).wf(),
            old(self).next_id() < u64::MAX,
        ensures
            final(self).wf(),
            final(self).gathered() == old(self).gathered(),
            final(self).released() == old(self).gathered(),
            out.finished == !running,
            (running || old(self).pending().len() > 0) ==> {
                &&& out.batch is Some
                &&& out.batch->0@ == old(self).batch_of()
                &&& final(self).next_id() == old(self).next_id() + 1
                &&& final(self).batches() == old(self).batches().push(old(self).batch_of())
            },
            !(running || old(self).pending().len() > 0) ==> {
                &&& out.batch is None
                &&& final(self).next_id() == old(self).next_id()
                &&& final(self).batches() == old(self).batches()
            },
            match out.trigger {
                Some((id, samples)) => {
                    &&& old(self).pending().len() > 0
                    &&& id == old(self).next_id()
                    &&& samples_view(samples@) == old(self).pending()
                },
                None => old(self).pending().len() == 0,
            },
            final(self).pending() == Seq::<SampleView>::empty(),
            final(self).channels() == old(self).channels(),
            final(self).rate() == old(self).rate(),
    {
        let id = self.batch_id;
        let mut samples: Vec<EegSample> = Vec::new();
        std::mem::swap(&mut samples, &mut self.current_batch);
        let ghost emitted = old(self).batch_of();
        let ghost grown = old(self).batches().push(emitted);
        proof {
            self.released@ = self.gathered@;
            assert(grown.drop_last() =~= old(self).batches());
            assert(end_to_end(grown) == old(self).gathered());
            if emitted.samples.len() == 0 {
                assert(old(self).gathered() =~= old(self).released());
            }
        }
        assert(self.pending() =~= Seq::<SampleView>::empty());
        assert(self.gathered() =~= self.released() + self.pending());
        if samples.len() == 0 {
            if running {
                self.batch_id = id + 1;
                proof {
                    self.batches@ = grown;
                }
                let batch = EegBatch {
                    samples,
                    batch_id: id,
                    channels_count: self.channels_count,
                    sample_rate: self.sample_rate,
                };
                BatchOutput { batch: Some(batch), trigger: None, finished: false }
            } else {
                BatchOutput { batch: None, trigger: None, finished: true }
            }
        } else {
            self.batch_id = id + 1;
            proof {
                self.batches@ = grown;
            }
            let copy = copy_samples(&samples);
            let batch = EegBatch {
                samples,
                batch_id: id,
                channels_count: self.channels_count,
                sample_rate: self.sample_rate,
            };
            BatchOutput { batch: Some(batch), trigger: Some((id, copy)), finished: !running }
        }
    }

    /// No sample is dropped or repeated: the emitted batches, laid end to
    /// end, are the beginning of what was gathered, and the rest waits for
    /// the next tick.
    pub proof fn lemma_nothing_lost(&self)
        requires
            self.wf(),
        ensures
            self.released() == end_to_end(self.batches()),
            self.released().is_prefix_of(self.gathered()),
            self.gathered().skip(self.released().len() as int) == self.pending(),
    {
        assert(self.gathered().skip(self.released().len() as int) =~= self.pending());
    }
}

} // verus!
