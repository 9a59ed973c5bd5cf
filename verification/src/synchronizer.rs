//! Pairing of time-domain batches with the spectra computed from them.
//!
//! Batches and spectral groups arrive independently and are kept under their
//! batch id.  On every display tick the synchronizer tries to emit the batch
//! that is next in line: together with its spectra if they have arrived,
//! with placeholder spectra if they have not, and an empty placeholder frame
//! if the batch itself is still missing.  Entries that have fallen too far
//! behind are dropped.

use crate::data_types::{
    spectra_view, BatchView, EegBatch, FramePayload, FrameView, FreqData, FreqView, SampleView,
};
use crate::fft_processor::{create_empty_freq_data, empty_spectra};
use std::collections::HashMap;
use vstd::prelude::*;
use vstd::std_specs::iter::IteratorSpec;

verus! {

broadcast use vstd::std_specs::hash::group_hash_axioms;

/// How many batch ids behind the next expected one an entry may lie before
/// it is dropped.
pub const EVICTION_WINDOW: u64 = 10;

/// What a tick has emitted.
#[derive(Clone, Copy, Debug, PartialEq, Eq, Structural)]
pub enum FrameKind {
    /// A batch together with the spectra computed from it.
    Matched,
    /// A batch whose spectra have not arrived, with placeholder spectra.
    TimeOnly,
    /// No batch: an empty frame that keeps the display's cadence.
    Placeholder,
}

/// The frame of one tick, with what kind of frame it is.
#[derive(Clone, Debug, PartialEq, Eq)]
pub struct SyncFrame {
    pub kind: FrameKind,
    pub payload: FramePayload,
}

/// The lowest batch id that is kept once `next_expected` is next in line.
pub open spec fn eviction_floor(next_expected: u64) -> u64 {
    if next_expected >= EVICTION_WINDOW {
        (next_expected - EVICTION_WINDOW) as u64
    } else {
        0
    }
}

/// The ids that are kept once `next_expected` is next in line.
pub open spec fn kept_ids(next_expected: u64) -> Set<u64> {
    Set::new(|id: u64| id >= eviction_floor(next_expected))
}

/// The empty frame that is emitted when the expected batch is missing.  It
/// is numbered by the count of frames published so far.
pub open spec fn placeholder_frame(
    frames: u64,
    channels_count: u32,
    sample_rate: u64,
) -> FrameView {
    FrameView {
        time_domain: BatchView {
            samples: Seq::<SampleView>::empty(),
            batch_id: frames,
            channels_count,
            sample_rate,
        },
        frequency_domain: empty_spectra(channels_count),
    }
}

/// The ids in the buffer that lie below `floor`.
fn stale_ids<V>(buffer: &HashMap<u64, V>, floor: u64) -> (stale: Vec<u64>)
    ensures
        forall|id: u64| stale@.contains(id) <==> (buffer@.contains_key(id) && id < floor),
{
    let mut stale: Vec<u64> = Vec::new();
    let ghost all = buffer.keys().remaining();
    for key in it: buffer.keys()
        invariant
            it.seq() == all,
            all.unref().to_set() == buffer@.dom(),
            forall|i: int|
                0 <= i < stale.len() ==> buffer@.contains_key(#[trigger] stale[i]) && stale[i]
                    < floor,
            forall|j: int|
                0 <= j < it.index() && *all[j] < floor ==> stale@.contains(*#[trigger] all[j]),
    {
        let ghost at = it.index();
        assert(*key == *all[at]);
        assert(all.unref()[at] == *key);
        assert(all.unref().contains(*key));
        assert(all.unref().to_set().contains(*key));
        if *key < floor {
            let ghost before = stale@;
            stale.push(*key);
            assert(stale@[before.len() as int] == *key);
            assert forall|j: int| 0 <= j < at + 1 && *all[j] < floor implies stale@.contains(
                *#[trigger] all[j],
            ) by {
                if j < at {
                    let i = choose|i: int| 0 <= i < before.len() && before[i] == *all[j];
                    assert(stale@[i] == *all[j]);
                }
            }
        }
    }
    assert forall|id: u64| buffer@.contains_key(id) && id < floor implies stale@.contains(
        id,
    ) by {
        assert(all.unref().to_set().contains(id));
        let j = choose|j: int| 0 <= j < all.unref().len() && all.unref()[j] == id;
        assert(*all[j] == id);
    }
    stale
}

/// Drops the entries whose id lies below `floor`.  Every other entry stays
/// as it is.
fn evict_below<V>(buffer: &mut HashMap<u64, V>, floor: u64)
    ensures
        final(buffer)@ == old(buffer)@.restrict(Set::new(|id: u64| id >= floor)),
{
    let stale = stale_ids(buffer, floor);
    let ghost before = buffer@;
    let mut i: usize = 0;
    while i < stale.len()
        invariant
            i <= stale.len(),
            forall|id: u64| stale@.contains(id) <==> (before.contains_key(id) && id < floor),
            forall|id: u64|
                buffer@.contains_key(id) <==> (before.contains_key(id) && !stale@.take(
                    i as int,
                ).contains(id)),
            forall|id: u64| buffer@.contains_key(id) ==> #[trigger] buffer@[id] == before[id],
        decreases stale.len() - i,
    {
        let ghost gone = stale@.take(i as int);
        let ghost held = buffer@;
        let _ = buffer.remove(&stale[i]);
        assert(buffer@ == held.remove(stale[i as int]));
        proof {
            let next = stale@.take(i + 1);
            assert(next.drop_last() =~= gone);
            assert(next.last() == stale[i as int]);
            let dropped = stale[i as int];
            assert forall|id: u64| next.contains(id) <==> (gone.contains(id) || id == dropped) by {
                if gone.contains(id) {
                    let j = choose|j: int| 0 <= j < gone.len() && gone[j] == id;
                    assert(next[j] == id);
                }
                if id == stale[i as int] {
                    assert(next[i as int] == id);
                }
                if next.contains(id) {
                    let j = choose|j: int| 0 <= j < next.len() && next[j] == id;
                    if j < i {
                        assert(gone[j] == id);
                    }
                }
            }
            assert forall|id: u64|
                buffer@.contains_key(id) <==> (before.contains_key(id) && !next.contains(id)) by {
                assert(held.contains_key(id) <==> (before.contains_key(id) && !gone.contains(
                    id,
                )));
            }
        }
        i += 1;
    }
    assert(stale@.take(stale.len() as int) =~= stale@);
    let ghost kept = before.restrict(Set::new(|id: u64| id >= floor));
    assert forall|id: u64| buffer@.contains_key(id) <==> kept.contains_key(id) by {
        assert(stale@.contains(id) <==> (before.contains_key(id) && id < floor));
    }
    assert forall|id: u64| buffer@.contains_key(id) implies #[trigger] buffer@[id]
        == kept[id] by {
        assert(buffer@[id] == before[id]);
        assert(kept.contains_key(id));
        assert(kept[id] == before[id]);
    }
    assert(buffer@.dom() =~= kept.dom());
    assert(buffer@ =~= kept);
}

/// The two id-keyed buffers and the cursor of the synchronizer.
pub struct FrameSynchronizer {
    time_buffer: HashMap<u64, EegBatch>,
    freq_buffer: HashMap<u64, Vec<FreqData>>,
    next_expected_batch_id: u64,
    frame_count: u64,
    channels_count: u32,
    sample_rate: u64,
    emitted: Ghost<Seq<u64>>,
    emitted_batches: Ghost<Seq<BatchView>>,
}

impl FrameSynchronizer {
    /// The ids of the batches emitted so far, in the order of emission.
    /// Placeholder frames stand for no batch and are not among them.
    pub closed spec fn emitted(&self) -> Seq<u64> {
        self.emitted@
    }

    /// The batches emitted so far, in the order of emission.
    pub closed spec fn emitted_batches(&self) -> Seq<BatchView> {
        self.emitted_batches@
    }

    /// The batches that wait to be emitted, by batch id.
    pub closed spec fn pending_time(&self) -> Map<u64, BatchView> {
        Map::new(
            |id: u64| self.time_buffer@.contains_key(id),
            |id: u64| self.time_buffer@[id]@,
        )
    }

    /// The spectral groups that wait to be emitted, by batch id.
    pub closed spec fn pending_freq(&self) -> Map<u64, Seq<FreqView>> {
        Map::new(
            |id: u64| self.freq_buffer@.contains_key(id),
            |id: u64| spectra_view(self.freq_buffer@[id]@),
        )
    }

    /// The id of the batch that is next in line.
    pub closed spec fn next_expected(&self) -> u64 {
        self.next_expected_batch_id
    }

    /// The number of frames that were published.
    pub closed spec fn frames(&self) -> u64 {
        self.frame_count
    }

    /// The channel count that placeholders are made for.
    pub closed spec fn channels(&self) -> u32 {
        self.channels_count
    }

    /// The sample rate that placeholders carry, as binary64 bits.
    pub closed spec fn rate(&self) -> u64 {
        self.sample_rate
    }

    /// Every waiting batch is kept under its own id, and the batches
    /// emitted so far are those before the one that is next in line, each
    /// once and in the order of their ids.
    pub open spec fn wf(&self) -> bool {
        &&& forall|id: u64| #[trigger]
            self.pending_time().contains_key(id) ==> self.pending_time()[id].batch_id == id
        &&& self.emitted() == Seq::new(self.next_expected() as nat, |i: int| i as u64)
        &&& self.emitted_batches().len() == self.emitted().len()
        &&& forall|i: int|
            0 <= i < self.emitted_batches().len() ==> (
            #[trigger] self.emitted_batches()[i]).batch_id == self.emitted()[i]
    }

    /// A synchronizer with empty buffers that expects batch 0.
    pub fn new(channels_count: u32, sample_rate: u64) -> (out: FrameSynchronizer)
        ensures
            out.wf(),
            out.pending_time() == Map::<u64, BatchView>::empty(),
            out.pending_freq() == Map::<u64, Seq<FreqView>>::empty(),
            out.next_expected() == 0,
            out.frames() == 0,
            out.channels() == channels_count,
            out.rate() == sample_rate,
            out.emitted() == Seq::<u64>::empty(),
            out.emitted_batches() == Seq::<BatchView>::empty(),
    {
        let out = FrameSynchronizer {
            time_buffer: HashMap::new(),
            freq_buffer: HashMap::new(),
            next_expected_batch_id: 0,
            frame_count: 0,
            channels_count,
            sample_rate,
            emitted: Ghost(Seq::empty()),
            emitted_batches: Ghost(Seq::empty()),
        };
        assert(out.emitted() =~= Seq::new(0, |i: int| i as u64));
        assert(out.pending_time() =~= Map::<u64, BatchView>::empty());
        assert(out.pending_freq() =~= Map::<u64, Seq<FreqView>>::empty());
        out
    }

    /// The id of the batch that is next in line.
    pub fn next_expected_batch_id(&self) -> (id: u64)
        ensures
            id == self.next_expected(),
    {
        self.next_expected_batch_id
    }

    /// The number of frames that were published.
    pub fn frame_count(&self) -> (n: u64)
        ensures
            n == self.frames(),
    {
        self.frame_count
    }

    /// The number of batches that wait to be emitted.
    pub fn buffered_batches(&self) -> (n: usize)
        ensures
            n == self.pending_time().dom().len(),
    {
        assert(self.pending_time().dom() =~= self.time_buffer@.dom());
        self.time_buffer.len()
    }

    /// The number of spectral groups that wait to be emitted.
    pub fn buffered_spectra(&self) -> (n: usize)
        ensures
            n == self.pending_freq().dom().len(),
    {
        assert(self.pending_freq().dom() =~= self.freq_buffer@.dom());
        self.freq_buffer.len()
    }

    /// Keeps a batch under its id.  A batch that arrives later under the
    /// same id takes the place of the earlier one.
    pub fn buffer_time_domain(&mut self, batch: EegBatch)
        requires
            old(self).wf(),
        ensures
            final(self).wf(),
            final(self).pending_time() == old(self).pending_time().insert(batch.batch_id, batch@),
            final(self).pending_freq() == old(self).pending_freq(),
            final(self).emitted() == old(self).emitted(),
            final(self).emitted_batches() == old(self).emitted_batches(),
            final(self).next_expected() == old(self).next_expected(),
            final(self).frames() == old(self).frames(),
            final(self).channels() == old(self).channels(),
            final(self).rate() == old(self).rate(),
    {
        let id = batch.batch_id;
        let _ = self.time_buffer.insert(id, batch);
        assert(self.pending_time() =~= old(self).pending_time().insert(id, batch@));
    }

    /// Keeps a spectral group under the id of the batch it was computed
    /// from.  A group that arrives later under the same id takes the place
    /// of the earlier one.
    pub fn buffer_frequency(&mut self, batch_id: u64, spectra: Vec<FreqData>)
        requires
            old(self).wf(),
        ensures
            final(self).wf(),
            final(self).pending_time() == old(self).pending_time(),
            final(self).pending_freq() == old(self).pending_freq().insert(
                batch_id,
                spectra_view(spectra@),
            ),
            final(self).emitted() == old(self).emitted(),
            final(self).emitted_batches() == old(self).emitted_batches(),
            final(self).next_expected() == old(self).next_expected(),
            final(self).frames() == old(self).frames(),
            final(self).channels() == old(self).channels(),
            final(self).rate() == old(self).rate(),
    {
        let _ = self.freq_buffer.insert(batch_id, spectra);
        assert(self.pending_time() =~= old(self).pending_time());
        assert(self.pending_freq() =~= old(self).pending_freq().insert(
            batch_id,
            spectra_view(spectra@),
        ));
    }

    /// The empty frame that keeps the cadence when there is nothing to emit.
    pub fn placeholder(&self) -> (out: FramePayload)
        ensures
            out@ == placeholder_frame(self.frames(), self.channels(), self.rate()),
    {
        let out = FramePayload {
            time_domain: EegBatch {
                samples: Vec::new(),
                batch_id: self.frame_count,
                channels_count: self.channels_count,
                sample_rate: self.sample_rate,
            },
            frequency_domain: create_empty_freq_data(self.channels_count),
        };
        assert(out@.time_domain.samples =~= Seq::<SampleView>::empty());
        out
    }

    /// Counts one published frame.
    pub fn record_published(&mut self)
        requires
            old(self).frames() < u64::MAX,
        ensures
            final(self).frames() == old(self).frames() + 1,
            final(self).pending_time() == old(self).pending_time(),
            final(self).pending_freq() == old(self).pending_freq(),
            final(self).emitted() == old(self).emitted(),
            final(self).emitted_batches() == old(self).emitted_batches(),
            final(self).next_expected() == old(self).next_expected(),
            final(self).channels() == old(self).channels(),
            final(self).rate() == old(self).rate(),
    {
        self.frame_count = self.frame_count + 1;
    }

    /// What follows from an attempt to publish the frame of a tick.
    ///
    /// A frame that was published is counted.  A frame with a batch that
    /// could not be published is answered with the empty placeholder frame,
    /// which is to be published in its place and settled like any other.  A
    /// placeholder that could not be published is let go.
    pub fn settle(&mut self, kind: FrameKind, published: bool) -> (retry: Option<FramePayload>)
        requires
            published ==> old(self).frames() < u64::MAX,
        ensures
            final(self).frames() == if published {
                old(self).frames() + 1
            } else {
                old(self).frames() as int
            },
            match retry {
                Some(frame) => {
                    &&& !published
                    &&& kind != FrameKind::Placeholder
                    &&& frame@ == placeholder_frame(
                        old(self).frames(),
                        old(self).channels(),
                        old(self).rate(),
                    )
                },
                None => published || kind == FrameKind::Placeholder,
            },
            final(self).pending_time() == old(self).pending_time(),
            final(self).pending_freq() == old(self).pending_freq(),
            final(self).emitted() == old(self).emitted(),
            final(self).emitted_batches() == old(self).emitted_batches(),
            final(self).next_expected() == old(self).next_expected(),
            final(self).channels() == old(self).channels(),
            final(self).rate() == old(self).rate(),
    {
        if published {
            self.record_published();
            None
        } else {
            match kind {
                FrameKind::Placeholder => None,
                _ => Some(self.placeholder()),
            }
        }
    }

    /// One display tick.
    ///
    /// If the batch that is next in line has arrived, it is emitted with its
    /// spectra, or with placeholder spectra if those are missing, and the
    /// following id becomes next in line; the batch and its spectra leave the
    /// buffers.  Otherwise an empty placeholder frame is emitted, the cursor
    /// stays, and spectra that have come before their batch go on waiting for
    /// it.  Either way every entry that lies more than the eviction window
    /// behind the cursor is dropped.
    pub fn tick(&mut self) -> (out: SyncFrame)
        requires
            old(self).wf(),
            old(self).next_expected() < u64::MAX,
        ensures
            final(self).wf(),
            ({
                let id = old(self).next_expected();
                let time = old(self).pending_time();
                let freq = old(self).pending_freq();
                let kept = kept_ids(final(self).next_expected());
                &&& time.contains_key(id) ==> {
                    &&& out.payload@.time_domain == time[id]
                    &&& out.payload@.time_domain.batch_id == id
                    &&& final(self).next_expected() == id + 1
                    &&& final(self).emitted() == old(self).emitted().push(id)
                    &&& final(self).emitted_batches() == old(self).emitted_batches().push(
                        time[id],
                    )
                    &&& freq.contains_key(id) ==> {
                        &&& out.kind == FrameKind::Matched
                        &&& out.payload@.frequency_domain == freq[id]
                    }
                    &&& !freq.contains_key(id) ==> {
                        &&& out.kind == FrameKind::TimeOnly
                        &&& out.payload@.frequency_domain == empty_spectra(old(self).channels())
                    }
                }
                &&& !time.contains_key(id) ==> {
                    &&& out.kind == FrameKind::Placeholder
                    &&& out.payload@ == placeholder_frame(
                        old(self).frames(),
                        old(self).channels(),
                        old(self).rate(),
                    )
                    &&& final(self).next_expected() == id
                    &&& final(self).emitted() == old(self).emitted()
                    &&& final(self).emitted_batches() == old(self).emitted_batches()
                }
                &&& final(self).pending_time() == time.remove(id).restrict(kept)
                &&& final(self).pending_freq() == (if time.contains_key(id) {
                    freq.remove(id)
                } else {
                    freq
                }).restrict(kept)
            }),
            final(self).frames() == old(self).frames(),
            final(self).channels() == old(self).channels(),
            final(self).rate() == old(self).rate(),
    {
        let id = self.next_expected_batch_id;
        let time = self.time_buffer.remove(&id);
        let out = match time {
            Some(time_domain) => {
                let freq = self.freq_buffer.remove(&id);
                self.next_expected_batch_id = id + 1;
                proof {
                    self.emitted@ = self.emitted@.push(id);
                    self.emitted_batches@ = self.emitted_batches@.push(time_domain@);
                    assert(self.emitted@ =~= Seq::new((id + 1) as nat, |i: int| i as u64));
                    assert(time_domain@ == old(self).pending_time()[id]);
                }
                match freq {
                    Some(frequency_domain) => SyncFrame {
                        kind: FrameKind::Matched,
                        payload: FramePayload { time_domain, frequency_domain },
                    },
                    None => SyncFrame {
                        kind: FrameKind::TimeOnly,
                        payload: FramePayload {
                            time_domain,
                            frequency_domain: create_empty_freq_data(self.channels_count),
                        },
                    },
                }
            },
            None => SyncFrame { kind: FrameKind::Placeholder, payload: self.placeholder() },
        };
        let floor = if self.next_expected_batch_id >= EVICTION_WINDOW {
            self.next_expected_batch_id - EVICTION_WINDOW
        } else {
            0
        };
        evict_below(&mut self.time_buffer, floor);
        evict_below(&mut self.freq_buffer, floor);
        proof {
            assert(Set::new(|k: u64| k >= floor) =~= kept_ids(self.next_expected_batch_id));
            assert(self.pending_time() =~= old(self).pending_time().remove(id).restrict(
                kept_ids(self.next_expected_batch_id),
            ));
            if old(self).pending_time().contains_key(id) {
                assert(self.pending_freq() =~= old(self).pending_freq().remove(id).restrict(
                    kept_ids(self.next_expected_batch_id),
                ));
            } else {
                assert(self.pending_freq() =~= old(self).pending_freq().restrict(
                    kept_ids(self.next_expected_batch_id),
                ));
            }
            assert forall|k: u64| #[trigger]
                self.pending_time().contains_key(k) implies self.pending_time()[k].batch_id
                == k by {
                assert(old(self).pending_time().contains_key(k));
            }
        }
        out
    }

    /// Emitted batch ids never repeat and never go back: the batches leave
    /// in the order of their ids, starting with 0 and without a gap.
    pub proof fn lemma_emitted_in_order(&self)
        requires
            self.wf(),
        ensures
            self.emitted().len() == self.next_expected(),
            self.emitted_batches().len() == self.next_expected(),
            forall|i: int|
                0 <= i < self.emitted_batches().len() ==> (
                #[trigger] self.emitted_batches()[i]).batch_id == i,
            forall|i: int| 0 <= i < self.emitted().len() ==> #[trigger] self.emitted()[i] == i,
            forall|i: int, j: int|
                0 <= i < j < self.emitted().len() ==> #[trigger] self.emitted()[i]
                    < #[trigger] self.emitted()[j],
    {
    }
}

} // verus!
