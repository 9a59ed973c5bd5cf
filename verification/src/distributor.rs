//! Fan-out of one sample stream to a fixed set of consumers.
//!
//! Every consumer has a channel of its own.  A sample that arrives on the
//! inbound channel is offered to each consumer that has not failed yet; a
//! consumer whose channel refuses a sample is closed for good and the others
//! go on being served.

use crate::data_types::{EegSample, SampleView};
use crossbeam_channel::{Receiver, RecvTimeoutError, Sender};
use std::time::Duration;
use vstd::prelude::*;

verus! {

/// `crossbeam_channel::Sender`: the sending side of a channel, of which
/// nothing but what [`accepted`] names is known.
#[verifier::external_type_specification]
#[verifier::external_body]
#[verifier::reject_recursive_types(T)]
pub struct ExSender<T>(crossbeam_channel::Sender<T>);

/// `crossbeam_channel::Receiver`: the receiving side of a channel, of which
/// nothing is known.
#[verifier::external_type_specification]
#[verifier::external_body]
#[verifier::reject_recursive_types(T)]
pub struct ExReceiver<T>(crossbeam_channel::Receiver<T>);

/// The samples that a sending handle has put into its channel since the
/// handle was made, oldest first.  What the receiving side has taken out
/// again does not change it.
pub uninterp spec fn accepted(outlet: Sender<EegSample>) -> Seq<SampleView>;

/// `crossbeam_channel::Sender::try_send`: the sample is appended to the
/// channel and `true` comes back, or the channel refuses it (its receivers
/// are gone, or it is bounded and full), nothing is appended and `false`
/// comes back.
#[verifier::external_body]
fn offer(outlet: &mut Sender<EegSample>, sample: EegSample) -> (sent: bool)
    ensures
        sent ==> accepted(*final(outlet)) == accepted(*old(outlet)).push(sample@),
        !sent ==> accepted(*final(outlet)) == accepted(*old(outlet)),
{
    outlet.try_send(sample).is_ok()
}

/// What the inbound channel gave within the wait.
pub enum Inbound {
    /// The next sample.
    Sample(EegSample),
    /// Nothing yet.
    Idle,
    /// Nothing, and nothing will come: the channel is empty and its senders
    /// are gone.
    Closed,
}

/// What a step of the distributor did.
#[derive(Clone, Copy, Debug, PartialEq, Eq, Structural)]
pub enum Progress {
    /// A sample was distributed and a consumer is still live.
    Delivered,
    /// No sample arrived within the wait.
    Idle,
    /// The distributor is done: the inbound channel is closed, or every
    /// consumer is.
    Finished,
}

/// `crossbeam_channel::Receiver::recv_timeout`: waits for the next sample,
/// for `wait_ms` milliseconds at most.  Nothing is known of the result: it
/// depends on the sending side.
#[verifier::external_body]
fn receive(inlet: &Receiver<EegSample>, wait_ms: u64) -> Inbound {
    match inlet.recv_timeout(Duration::from_millis(wait_ms)) {
        Ok(sample) => Inbound::Sample(sample),
        Err(RecvTimeoutError::Timeout) => Inbound::Idle,
        Err(RecvTimeoutError::Disconnected) => Inbound::Closed,
    }
}

/// Delivers every sample to every consumer that is still live.
pub struct Distributor {
    inlet: Receiver<EegSample>,
    outlets: Vec<Sender<EegSample>>,
    failures: Vec<u64>,
    source: Ghost<Seq<SampleView>>,
    baseline: Ghost<Seq<Seq<SampleView>>>,
    reached: Ghost<Seq<nat>>,
}

impl Distributor {
    /// The number of consumers.
    pub closed spec fn consumers(&self) -> nat {
        self.outlets.len() as nat
    }

    /// The samples distributed so far, in order.
    pub closed spec fn source(&self) -> Seq<SampleView> {
        self.source@
    }

    /// How often consumer `k` has refused a sample.
    pub closed spec fn failures(&self, k: int) -> nat {
        self.failures[k] as nat
    }

    /// A consumer is live until it refuses a sample.
    pub open spec fn live(&self, k: int) -> bool {
        self.failures(k) == 0
    }

    /// What consumer `k` has been given since the distributor was made.
    pub closed spec fn delivered(&self, k: int) -> Seq<SampleView> {
        accepted(self.outlets[k]).skip(self.baseline@[k].len() as int)
    }

    /// The invariant of the distributor.
    pub closed spec fn wf(&self) -> bool {
        &&& self.failures.len() == self.outlets.len()
        &&& self.baseline@.len() == self.outlets.len()
        &&& self.reached@.len() == self.outlets.len()
        &&& forall|k: int|
            0 <= k < self.outlets.len() ==> {
                &&& (#[trigger] self.failures[k]) <= 1
                &&& self.reached@[k] <= self.source@.len()
                &&& self.failures[k] == 0 ==> self.reached@[k] == self.source@.len()
                &&& accepted(self.outlets[k]) == self.baseline@[k] + self.source@.take(
                    self.reached@[k] as int,
                )
            }
    }

    /// How the distributor changes with one sample: the sample joins the
    /// source sequence; a live consumer either takes it or is closed by its
    /// refusal; a closed consumer is left alone.
    pub open spec fn after_sample(&self, next: Distributor, sample: SampleView) -> bool {
        &&& next.consumers() == self.consumers()
        &&& next.source() == self.source().push(sample)
        &&& forall|k: int|
            0 <= k < self.consumers() && !self.live(k) ==> {
                &&& #[trigger] next.delivered(k) == self.delivered(k)
                &&& next.failures(k) == self.failures(k)
            }
        &&& forall|k: int|
            0 <= k < self.consumers() && self.live(k) ==> {
                ||| {
                    &&& next.live(k)
                    &&& #[trigger] next.delivered(k) == self.delivered(k).push(sample)
                }
                ||| {
                    &&& next.failures(k) == 1
                    &&& next.delivered(k) == self.delivered(k)
                }
            }
    }

    /// Nothing was delivered and no consumer was closed.
    pub open spec fn unchanged(&self, next: Distributor) -> bool {
        &&& next.consumers() == self.consumers()
        &&& next.source() == self.source()
        &&& forall|k: int|
            0 <= k < self.consumers() ==> {
                &&& #[trigger] next.delivered(k) == self.delivered(k)
                &&& next.failures(k) == self.failures(k)
            }
    }

    /// Whether any consumer is live.
    pub open spec fn some_live(&self) -> bool {
        exists|k: int| 0 <= k < self.consumers() && self.live(k)
    }

    /// A distributor from the inbound channel to the given consumers, all
    /// of them live.
    pub fn new(inlet: Receiver<EegSample>, outlets: Vec<Sender<EegSample>>) -> (out: Distributor)
        ensures
            out.wf(),
            out.consumers() == outlets.len(),
            out.source() == Seq::<SampleView>::empty(),
            forall|k: int|
                0 <= k < outlets.len() ==> out.live(k) && #[trigger] out.delivered(k)
                    == Seq::<SampleView>::empty(),
    {
        let mut failures: Vec<u64> = Vec::new();
        let mut i: usize = 0;
        while i < outlets.len()
            invariant
                i <= outlets.len(),
                failures.len() == i,
                forall|k: int| 0 <= k < i ==> failures[k] == 0,
            decreases outlets.len() - i,
        {
            failures.push(0);
            i += 1;
        }
        let ghost baseline = Seq::new(outlets.len() as nat, |k: int| accepted(outlets[k]));
        let ghost reached = Seq::new(outlets.len() as nat, |k: int| 0nat);
        let out = Distributor {
            inlet,
            outlets,
            failures,
            source: Ghost(Seq::empty()),
            baseline: Ghost(baseline),
            reached: Ghost(reached),
        };
        assert forall|k: int| 0 <= k < out.outlets.len() implies accepted(out.outlets[k])
            == out.baseline@[k] + out.source@.take(out.reached@[k] as int) by {
            assert(out.baseline@[k] + Seq::<SampleView>::empty() =~= out.baseline@[k]);
        }
        assert forall|k: int| 0 <= k < out.outlets.len() implies #[trigger] out.delivered(k)
            == Seq::<SampleView>::empty() by {
            assert(accepted(out.outlets[k]).skip(out.baseline@[k].len() as int)
                =~= Seq::<SampleView>::empty());
        }
        out
    }

    /// The number of consumers.
    pub fn consumer_count(&self) -> (n: usize)
        ensures
            n == self.consumers(),
    {
        self.outlets.len()
    }

    /// How often consumer `k` has refused a sample.
    pub fn failure_count(&self, k: usize) -> (n: u64)
        requires
            self.wf(),
            k < self.consumers(),
        ensures
            n == self.failures(k as int),
    {
        self.failures[k]
    }

    /// Whether any consumer is still live.
    pub fn any_live(&self) -> (live: bool)
        requires
            self.wf(),
        ensures
            live == self.some_live(),
    {
        let mut i: usize = 0;
        while i < self.failures.len()
            invariant
                self.wf(),
                i <= self.failures.len(),
                forall|k: int| 0 <= k < i ==> !self.live(k),
            decreases self.failures.len() - i,
        {
            if self.failures[i] == 0 {
                assert(self.live(i as int));
                return true;
            }
            i += 1;
        }
        false
    }

    /// Offers a copy of `sample` to every live consumer, in consumer order.
    ///
    /// A live consumer either takes the sample or is closed by its refusal.
    /// A closed consumer is left alone.  The result says whether the
    /// distributor should go on: it is `false` once every consumer is closed.
    pub fn distribute(&mut self, sample: &EegSample) -> (go_on: bool)
        requires
            old(self).wf(),
        ensures
            final(self).wf(),
            old(self).after_sample(*final(self), sample@),
            go_on == final(self).some_live(),
    {
        let ghost before = *self;
        let n = self.outlets.len();
        let mut i: usize = 0;
        while i < n
            invariant
                before.wf(),
                n == self.outlets.len(),
                n == before.outlets.len(),
                i <= n,
                self.failures.len() == n,
                self.baseline == before.baseline,
                self.source == before.source,
                self.reached@.len() == n,
                forall|k: int| i <= k < n ==> self.outlets[k] == #[trigger] before.outlets[k],
                forall|k: int| i <= k < n ==> self.failures[k] == #[trigger] before.failures[k],
                forall|k: int| i <= k < n ==> self.reached@[k] == #[trigger] before.reached@[k],
                forall|k: int|
                    0 <= k < i && before.failures[k] != 0 ==> {
                        &&& self.failures[k] == before.failures[k]
                        &&& self.reached@[k] == before.reached@[k]
                        &&& accepted(self.outlets[k]) == accepted(before.outlets[k])
                    },
                forall|k: int|
                    0 <= k < i && before.failures[k] == 0 ==> {
                        ||| {
                            &&& self.failures[k] == 0
                            &&& self.reached@[k] == before.source@.len() + 1
                            &&& accepted(self.outlets[k]) == accepted(before.outlets[k]).push(
                                sample@,
                            )
                        }
                        ||| {
                            &&& self.failures[k] == 1
                            &&& self.reached@[k] == before.reached@[k]
                            &&& accepted(self.outlets[k]) == accepted(before.outlets[k])
                        }
                    },
            decreases n - i,
        {
            if self.failures[i] == 0 {
                let sent = offer(&mut self.outlets[i], sample.duplicate());
                if sent {
                    proof {
                        self.reached@ = self.reached@.update(i as int, before.source@.len() + 1);
                    }
                } else {
                    self.failures[i] = 1;
                }
            }
            i += 1;
        }
        proof {
            self.source@ = before.source@.push(sample@);
            let grown = self.source@;
            assert forall|k: int| 0 <= k < n implies {
                &&& (#[trigger] self.failures[k]) <= 1
                &&& self.reached@[k] <= grown.len()
                &&& self.failures[k] == 0 ==> self.reached@[k] == grown.len()
                &&& accepted(self.outlets[k]) == self.baseline@[k] + grown.take(
                    self.reached@[k] as int,
                )
            } by {
                let base = before.baseline@[k];
                let r = before.reached@[k] as int;
                assert(accepted(before.outlets[k]) == base + before.source@.take(r));
                if self.reached@[k] == before.reached@[k] {
                    assert(grown.take(r) =~= before.source@.take(r));
                } else {
                    assert(before.source@.take(r) =~= before.source@);
                    assert(grown.take(grown.len() as int) =~= grown);
                    assert((base + before.source@).push(sample@) =~= base + grown);
                }
            }
            assert forall|k: int| 0 <= k < n implies (accepted(self.outlets[k]) == accepted(
                before.outlets[k],
            ) ==> #[trigger] self.delivered(k) == before.delivered(k)) && (accepted(self.outlets[k])
                == accepted(before.outlets[k]).push(sample@) ==> self.delivered(k)
                == before.delivered(k).push(sample@)) by {
                let base = before.baseline@[k];
                let r = before.reached@[k] as int;
                assert(accepted(before.outlets[k]) == base + before.source@.take(r));
                if accepted(self.outlets[k]) == accepted(before.outlets[k]).push(sample@) {
                    assert(accepted(before.outlets[k]).push(sample@).skip(base.len() as int)
                        =~= accepted(before.outlets[k]).skip(base.len() as int).push(sample@));
                }
            }
        }
        self.any_live()
    }

    /// Waits for the next sample on the inbound channel, for `wait_ms`
    /// milliseconds at most, and distributes it.
    ///
    /// Where a sample came, it was distributed, and the distributor is
    /// finished if that closed the last live consumer.  Where none came,
    /// nothing was delivered, and the distributor is finished if the inbound
    /// channel is closed.
    pub fn step(&mut self, wait_ms: u64) -> (progress: Progress)
        requires
            old(self).wf(),
        ensures
            final(self).wf(),
            match progress {
                Progress::Delivered => final(self).some_live() && exists|sample: SampleView|
                    old(self).after_sample(*final(self), sample),
                Progress::Idle => old(self).unchanged(*final(self)),
                Progress::Finished => {
                    ||| old(self).unchanged(*final(self))
                    ||| {
                        &&& !final(self).some_live()
                        &&& exists|sample: SampleView|
                            old(self).after_sample(*final(self), sample)
                    }
                },
            },
    {
        let inbound = receive(&self.inlet, wait_ms);
        self.absorb(inbound)
    }

    /// Takes in what the inbound channel gave.
    ///
    /// A sample is distributed, and the distributor is finished if no
    /// consumer is live after that.  Without a sample nothing is delivered;
    /// the distributor then goes on waiting, unless the inbound channel is
    /// closed, which finishes it.
    pub fn absorb(&mut self, inbound: Inbound) -> (progress: Progress)
        requires
            old(self).wf(),
        ensures
            final(self).wf(),
            match inbound {
                Inbound::Sample(sample) => {
                    &&& old(self).after_sample(*final(self), sample@)
                    &&& progress == if final(self).some_live() {
                        Progress::Delivered
                    } else {
                        Progress::Finished
                    }
                },
                Inbound::Idle => old(self).unchanged(*final(self)) && progress == Progress::Idle,
                Inbound::Closed => old(self).unchanged(*final(self)) && progress
                    == Progress::Finished,
            },
    {
        match inbound {
            Inbound::Sample(sample) => {
                let go_on = self.distribute(&sample);
                if go_on {
                    Progress::Delivered
                } else {
                    Progress::Finished
                }
            },
            Inbound::Idle => Progress::Idle,
            Inbound::Closed => Progress::Finished,
        }
    }

    /// Every consumer has been given a prefix of the source sequence, in the
    /// source's order and without repetition, and a live consumer has been
    /// given all of it.
    pub proof fn lemma_delivery_in_order(&self, k: int)
        requires
            self.wf(),
            0 <= k < self.consumers(),
        ensures
            self.delivered(k).is_prefix_of(self.source()),
            self.live(k) ==> self.delivered(k) == self.source(),
    {
        let base = self.baseline@[k];
        let r = self.reached@[k] as int;
        assert((base + self.source@.take(r)).skip(base.len() as int) =~= self.source@.take(r));
        if self.live(k) {
            assert(self.source@.take(r) =~= self.source@);
        }
    }
}

} // verus!
