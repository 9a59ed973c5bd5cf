//! What holds of the display leg as a whole: of a batcher and of the
//! synchronizer that is fed with its batches.

use crate::batcher::{end_to_end, lemma_end_to_end_of_prefix, TimeDomainBatcher};
use crate::synchronizer::FrameSynchronizer;
use vstd::prelude::*;

verus! {

/// Where the synchronizer emits the batcher's batches, the frames built from
/// batches carry the ids 0, 1, 2 and so on without a gap, and their samples,
/// frame after frame, are the samples that the batcher has gathered, from
/// the first on and in the order of their arrival.
pub proof fn lemma_frames_carry_the_stream(batcher: &TimeDomainBatcher, sync: &FrameSynchronizer)
    requires
        batcher.wf(),
        sync.wf(),
        sync.emitted_batches().is_prefix_of(batcher.batches()),
    ensures
        forall|i: int|
            0 <= i < sync.emitted_batches().len() ==> (
            #[trigger] sync.emitted_batches()[i]).batch_id == i,
        end_to_end(sync.emitted_batches()).is_prefix_of(batcher.gathered()),
{
    lemma_end_to_end_of_prefix(sync.emitted_batches(), batcher.batches());
    batcher.lemma_nothing_lost();
}

} // verus!
